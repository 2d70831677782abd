# kaiser_db

The logic of a small PostgreSQL query window, verified with Verus.

- `src/text.rs`: decimal text of integers and lower-case hex text of bytes,
  with proofs that both renderings lose nothing.
- `src/cell.rs`: what a result cell shows, the table a query outcome shows,
  and the ` | `-joined console line of a row.
- `src/table.rs`: column widths estimated from the cells, and the integer
  geometry of the table (cell positions, offsets, text boxes, buffer growth).
- `src/editor.rs`: what a key press does to the query and to the window.
- `app/main.rs`: the window itself (winit, wgpu, glyphon), the database calls
  (sqlx, tokio), and the pixel layout, which is floating point.
