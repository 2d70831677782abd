//! What a key press does: to the query being typed, and to the window.
use vstd::prelude::*;
use crate::text::push_char;

verus! {

/// A pressed key, as the query editor tells keys apart.
pub enum Key {
    /// A key that types text (what it types).
    Character(String),
    Space,
    Backspace,
    Enter,
    ArrowDown,
    ArrowUp,
    ArrowRight,
    ArrowLeft,
    /// Any other key.
    Other,
}

/// What the window does after a key press, besides showing the query again.
#[derive(PartialEq, Eq, Structural)]
pub enum KeyAction {
    /// Run the query against the database.
    RunQuery,
    /// Scroll the table by this many pixels, right and down.
    Scroll(i32, i32),
    /// Nothing more.
    Nothing,
}

/// How far one arrow key press scrolls across: half the narrowest column.
pub const ARROW_SCROLL_X: i32 = 60;
/// How far one arrow key press scrolls down: one row.
pub const ARROW_SCROLL_Y: i32 = 34;

/// Typing `r` (either case) while the super key is held runs the query.
pub open spec fn is_run_shortcut(typed: Seq<char>, super_held: bool) -> bool {
    super_held && (typed == seq!['r'] || typed == seq!['R'])
}

/// The query after a key press.
pub open spec fn edited_query(query: Seq<char>, key: &Key, super_held: bool) -> Seq<char> {
    match key {
        Key::Character(s) => if is_run_shortcut(s@, super_held) { query } else { query + s@ },
        Key::Space => query.push(' '),
        Key::Backspace => if query.len() == 0 { query } else { query.drop_last() },
        Key::Enter => query.push('\n'),
        _ => query,
    }
}

/// What the window does after a key press.
pub open spec fn key_action(key: &Key, super_held: bool) -> KeyAction {
    match key {
        Key::Character(s) => if is_run_shortcut(s@, super_held) { KeyAction::RunQuery } else { KeyAction::Nothing },
        Key::ArrowDown => KeyAction::Scroll(0, ARROW_SCROLL_Y),
        Key::ArrowUp => KeyAction::Scroll(0, (-ARROW_SCROLL_Y) as i32),
        Key::ArrowRight => KeyAction::Scroll(ARROW_SCROLL_X, 0),
        Key::ArrowLeft => KeyAction::Scroll((-ARROW_SCROLL_X) as i32, 0),
        _ => KeyAction::Nothing,
    }
}

/// Removes the last character of `s` and returns it (std `String::pop`).
#[verifier::external_body]
fn pop_char(s: &mut String) -> (c: Option<char>)
    ensures
        old(s)@.len() == 0 ==> c is None && final(s)@ == old(s)@,
        old(s)@.len() > 0 ==> c == Some(old(s)@.last()) && final(s)@ == old(s)@.drop_last(),
{
    s.pop()
}

fn is_run_key(typed: &String, super_held: bool) -> (run: bool)
    ensures
        run == is_run_shortcut(typed@, super_held),
{
    if !super_held {
        return false;
    }
    let t = typed.as_str();
    if t.unicode_len() != 1 {
        assert(t@ != seq!['r'] && t@ != seq!['R']);
        return false;
    }
    let c = t.get_char(0);
    if c == 'r' || c == 'R' {
        assert(t@ =~= seq![c]);
        true
    } else {
        assert(t@ != seq!['r'] && t@ != seq!['R']) by {
            if t@ == seq!['r'] { assert(t@[0] == 'r'); }
            if t@ == seq!['R'] { assert(t@[0] == 'R'); }
        }
        false
    }
}

/// Applies a key press to the query, and says what the window does next.
pub fn apply_key(query: &mut String, key: &Key, super_held: bool) -> (action: KeyAction)
    ensures
        final(query)@ == edited_query(old(query)@, key, super_held),
        action == key_action(key, super_held),
{
    match key {
        Key::Character(s) => {
            if is_run_key(s, super_held) {
                KeyAction::RunQuery
            } else {
                query.append(s.as_str());
                KeyAction::Nothing
            }
        },
        Key::Space => {
            push_char(query, ' ');
            KeyAction::Nothing
        },
        Key::Backspace => {
            let _ = pop_char(query);
            KeyAction::Nothing
        },
        Key::Enter => {
            push_char(query, '\n');
            KeyAction::Nothing
        },
        Key::ArrowDown => KeyAction::Scroll(0, ARROW_SCROLL_Y),
        Key::ArrowUp => KeyAction::Scroll(0, -ARROW_SCROLL_Y),
        Key::ArrowRight => KeyAction::Scroll(ARROW_SCROLL_X, 0),
        Key::ArrowLeft => KeyAction::Scroll(-ARROW_SCROLL_X, 0),
        Key::Other => KeyAction::Nothing,
    }
}

/// Backspace takes back what one key press typed: a single character, a space
/// or a new line (but not the run shortcut, which types nothing).
pub proof fn lemma_backspace_undoes_one_character(query: Seq<char>, key: &Key, super_held: bool)
    requires
        match key {
            Key::Character(s) => s@.len() == 1 && !is_run_shortcut(s@, super_held),
            Key::Space => true,
            Key::Enter => true,
            _ => false,
        },
    ensures
        edited_query(edited_query(query, key, super_held), &Key::Backspace, super_held) == query,
{
    let typed = edited_query(query, key, super_held);
    assert(typed.len() == query.len() + 1);
    assert(typed.drop_last() =~= query);
}

/// Each arrow key scrolls back exactly what the opposite arrow scrolled.
pub proof fn lemma_opposite_arrows_cancel(super_held: bool)
    ensures
        key_action(&Key::ArrowDown, super_held) matches KeyAction::Scroll(dx1, dy1)
            && key_action(&Key::ArrowUp, super_held) matches KeyAction::Scroll(dx2, dy2)
            && dx1 + dx2 == 0 && dy1 + dy2 == 0,
        key_action(&Key::ArrowRight, super_held) matches KeyAction::Scroll(dx3, dy3)
            && key_action(&Key::ArrowLeft, super_held) matches KeyAction::Scroll(dx4, dy4)
            && dx3 + dx4 == 0 && dy3 + dy4 == 0,
{
}

/// A key press edits the query or acts on the window, never both: the query
/// stays as it was whenever the press runs the query or scrolls.
pub proof fn lemma_actions_leave_query(query: Seq<char>, key: &Key, super_held: bool)
    requires
        key_action(key, super_held) != KeyAction::Nothing,
    ensures
        edited_query(query, key, super_held) == query,
{
}


/// Without the super key held, a character key never runs the query: it
/// types exactly its text at the end of the query.
pub proof fn lemma_characters_type_without_super(query: Seq<char>, text: String)
    ensures
        key_action(&Key::Character(text), false) == KeyAction::Nothing,
        edited_query(query, &Key::Character(text), false) == query + text@,
{
}

/// With the super key held, the key that types `r` or `R` runs the query and
/// leaves it as it is; any other character key types its text as usual.
pub proof fn lemma_super_r_runs_the_query(query: Seq<char>, text: String)
    ensures
        (text@ == seq!['r'] || text@ == seq!['R']) ==> key_action(&Key::Character(text), true) == KeyAction::RunQuery
            && edited_query(query, &Key::Character(text), true) == query,
        !(text@ == seq!['r'] || text@ == seq!['R']) ==> key_action(&Key::Character(text), true) == KeyAction::Nothing
            && edited_query(query, &Key::Character(text), true) == query + text@,
{
}

/// The other keys, whatever the super key: space and Enter type a space and a
/// new line, Backspace removes the last character (if any), the arrows scroll
/// by one row (34 pixels) down or up and by half the narrowest column (60
/// pixels) right or left without touching the query, and other keys do nothing.
pub proof fn lemma_named_keys(query: Seq<char>, super_held: bool)
    ensures
        edited_query(query, &Key::Space, super_held) == query + seq![' '],
        edited_query(query, &Key::Enter, super_held) == query + seq!['\n'],
        query.len() > 0 ==> edited_query(query, &Key::Backspace, super_held) == query.subrange(0, query.len() - 1),
        query.len() == 0 ==> edited_query(query, &Key::Backspace, super_held) == query,
        key_action(&Key::Space, super_held) == KeyAction::Nothing,
        key_action(&Key::Enter, super_held) == KeyAction::Nothing,
        key_action(&Key::Backspace, super_held) == KeyAction::Nothing,
        key_action(&Key::ArrowDown, super_held) == KeyAction::Scroll(0, 34),
        key_action(&Key::ArrowUp, super_held) == KeyAction::Scroll(0i32, -34i32),
        key_action(&Key::ArrowRight, super_held) == KeyAction::Scroll(60, 0),
        key_action(&Key::ArrowLeft, super_held) == KeyAction::Scroll(-60i32, 0i32),
        key_action(&Key::Other, super_held) == KeyAction::Nothing,
        edited_query(query, &Key::ArrowDown, super_held) == query,
        edited_query(query, &Key::ArrowUp, super_held) == query,
        edited_query(query, &Key::ArrowRight, super_held) == query,
        edited_query(query, &Key::ArrowLeft, super_held) == query,
        edited_query(query, &Key::Other, super_held) == query,
{
    assert(query.push(' ') =~= query + seq![' ']);
    assert(query.push('\n') =~= query + seq!['\n']);
}

} // verus!
