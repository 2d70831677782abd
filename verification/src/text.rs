//! Text rendering of integers and byte strings.
use vstd::prelude::*;

verus! {

/// The decimal digit `d` (`0 <= d < 10`) as a character.
pub open spec fn decimal_digit(d: nat) -> char {
    if d == 0 { '0' }
    else if d == 1 { '1' }
    else if d == 2 { '2' }
    else if d == 3 { '3' }
    else if d == 4 { '4' }
    else if d == 5 { '5' }
    else if d == 6 { '6' }
    else if d == 7 { '7' }
    else if d == 8 { '8' }
    else { '9' }
}

/// Decimal text of a natural number, most significant digit first, no leading zeros.
pub open spec fn nat_text(n: nat) -> Seq<char>
    decreases n,
{
    if n < 10 {
        seq![decimal_digit(n)]
    } else {
        nat_text(n / 10).push(decimal_digit(n % 10))
    }
}

/// Decimal text of an integer, with a leading `-` when it is negative.
pub open spec fn int_text(n: int) -> Seq<char> {
    if n < 0 {
        seq!['-'] + nat_text((-n) as nat)
    } else {
        nat_text(n as nat)
    }
}

/// Appends the character `c` to `s` (std `String::push`).
#[verifier::external_body]
pub(crate) fn push_char(s: &mut String, c: char)
    ensures
        final(s)@ == old(s)@.push(c),
{
    s.push(c);
}

fn digit_char(d: u64) -> (c: char)
    requires
        d < 10,
    ensures
        c == decimal_digit(d as nat),
{
    if d == 0 { '0' }
    else if d == 1 { '1' }
    else if d == 2 { '2' }
    else if d == 3 { '3' }
    else if d == 4 { '4' }
    else if d == 5 { '5' }
    else if d == 6 { '6' }
    else if d == 7 { '7' }
    else if d == 8 { '8' }
    else { '9' }
}

/// Appends the decimal text of `n` to `s`.
pub fn push_decimal(s: &mut String, n: u64)
    ensures
        final(s)@ == old(s)@ + nat_text(n as nat),
    decreases n,
{
    if n >= 10 {
        push_decimal(s, n / 10);
    }
    push_char(s, digit_char(n % 10));
    proof {
        if n >= 10 {
            assert(old(s)@ + nat_text(n as nat) =~= old(s)@ + nat_text((n / 10) as nat) + seq![decimal_digit((n % 10) as nat)]);
        } else {
            assert(nat_text(n as nat) == seq![decimal_digit(n as nat)]);
        }
    }
}

/// The decimal text of an unsigned integer (as `u64::to_string` writes it).
pub fn u64_text(n: u64) -> (s: String)
    ensures
        s@ == nat_text(n as nat),
{
    let mut s = String::new();
    push_decimal(&mut s, n);
    proof {
        assert(s@ =~= nat_text(n as nat));
    }
    s
}

/// The decimal text of a signed integer (as `i64::to_string` writes it).
pub fn i64_text(n: i64) -> (s: String)
    ensures
        s@ == int_text(n as int),
{
    let mut s = String::new();
    if n < 0 {
        push_char(&mut s, '-');
        let magnitude: u64 = if n == i64::MIN { 9223372036854775808u64 } else { (-n) as u64 };
        push_decimal(&mut s, magnitude);
    } else {
        push_decimal(&mut s, n as u64);
    }
    proof {
        assert(s@ =~= int_text(n as int));
    }
    s
}


/// The value of a decimal digit character: its distance from `'0'`.
pub open spec fn digit_value(c: char) -> int {
    (c as int) - ('0' as int)
}

/// Whether `c` is one of the characters `'0'` to `'9'`.
pub open spec fn is_decimal_char(c: char) -> bool {
    '0' <= c && c <= '9'
}

/// The number that a string of decimal digits denotes.
pub open spec fn digits_value(s: Seq<char>) -> int
    decreases s.len(),
{
    if s.len() == 0 {
        0
    } else {
        digits_value(s.drop_last()) * 10 + digit_value(s.last())
    }
}

proof fn lemma_decimal_digit_char(d: nat)
    requires
        d < 10,
    ensures
        is_decimal_char(decimal_digit(d)),
        digit_value(decimal_digit(d)) == d,
{
}

/// Decimal text is the usual base-ten numeral: it consists of the characters
/// `'0'` to `'9'`, has no leading zero (unless it is `0` itself), and reads
/// back, digit by digit, as the number it was made from.
pub proof fn lemma_nat_text_reads_back(n: nat)
    ensures
        nat_text(n).len() >= 1,
        forall|k: int| 0 <= k < nat_text(n).len() ==> is_decimal_char(#[trigger] nat_text(n)[k]),
        n > 0 ==> nat_text(n)[0] != '0',
        digits_value(nat_text(n)) == n,
    decreases n,
{
    if n >= 10 {
        lemma_nat_text_reads_back(n / 10);
        lemma_decimal_digit_char(n % 10);
        let t = nat_text(n);
        assert(t.drop_last() =~= nat_text(n / 10));
        assert(t.last() == decimal_digit(n % 10));
        assert(digits_value(t) == digits_value(t.drop_last()) * 10 + digit_value(t.last()));
        assert((n / 10) * 10 + n % 10 == n) by (nonlinear_arith);
        assert(digits_value(t.drop_last()) == n / 10);
        assert(digits_value(t) == n);
        assert forall|k: int| 0 <= k < t.len() implies is_decimal_char(#[trigger] t[k]) by {
            if k < t.len() - 1 {
                assert(t[k] == nat_text(n / 10)[k]);
            }
        }
        assert(t[0] == nat_text(n / 10)[0]);
    } else {
        lemma_decimal_digit_char(n);
        assert(nat_text(n) =~= seq![decimal_digit(n)]);
        assert(nat_text(n).drop_last() =~= Seq::<char>::empty());
        let t = nat_text(n);
        assert(t.len() == 1 && t.last() == decimal_digit(n));
        assert(digits_value(t.drop_last()) == 0);
        assert(digits_value(t) == n);
    }
}

/// Signed decimal text is `-` followed by the numeral of the magnitude for a
/// negative number, and the numeral alone otherwise.
pub proof fn lemma_int_text_reads_back(n: int)
    ensures
        n < 0 ==> int_text(n)[0] == '-' && digits_value(int_text(n).drop_first()) == -n,
        n >= 0 ==> digits_value(int_text(n)) == n,
        forall|k: int| (if n < 0 { 1int } else { 0int }) <= k < int_text(n).len() ==> is_decimal_char(#[trigger] int_text(n)[k]),
{
    if n < 0 {
        lemma_nat_text_reads_back((-n) as nat);
        assert(int_text(n).drop_first() =~= nat_text((-n) as nat));
        assert forall|k: int| 1 <= k < int_text(n).len() implies is_decimal_char(#[trigger] int_text(n)[k]) by {
            assert(int_text(n)[k] == nat_text((-n) as nat)[k - 1]);
        }
    } else {
        lemma_nat_text_reads_back(n as nat);
    }
}

/// Integer rendering loses nothing: two integers with the same decimal text are equal.
pub proof fn lemma_int_text_injective(a: int, b: int)
    requires
        int_text(a) == int_text(b),
    ensures
        a == b,
{
    if a < 0 {
        lemma_nat_text_reads_back((-a) as nat);
    } else {
        lemma_nat_text_reads_back(a as nat);
    }
    if b < 0 {
        lemma_nat_text_reads_back((-b) as nat);
    } else {
        lemma_nat_text_reads_back(b as nat);
    }
    if a < 0 && b < 0 {
        assert(int_text(a).drop_first() =~= nat_text((-a) as nat));
        assert(int_text(b).drop_first() =~= nat_text((-b) as nat));
    } else if a < 0 && b >= 0 {
        assert(int_text(a)[0] == '-');
        assert(is_decimal_char(int_text(b)[0]));
    } else if a >= 0 && b < 0 {
        assert(int_text(b)[0] == '-');
        assert(is_decimal_char(int_text(a)[0]));
    }
}

/// The lower-case hexadecimal digit `d` (`0 <= d < 16`) as a character.
pub open spec fn hex_digit(d: nat) -> char {
    if d < 10 { decimal_digit(d) }
    else if d == 10 { 'a' }
    else if d == 11 { 'b' }
    else if d == 12 { 'c' }
    else if d == 13 { 'd' }
    else if d == 14 { 'e' }
    else { 'f' }
}

/// Two lower-case hex digits per byte, high nibble first (the `{:02x}` form),
/// all bytes in order, with no separator.
pub open spec fn hex_text(bytes: Seq<u8>) -> Seq<char> {
    Seq::new(
        2 * bytes.len(),
        |k: int|
            if k % 2 == 0 {
                hex_digit((bytes[k / 2] / 16) as nat)
            } else {
                hex_digit((bytes[k / 2] % 16) as nat)
            },
    )
}

fn hex_digit_char(d: u8) -> (c: char)
    requires
        d < 16,
    ensures
        c == hex_digit(d as nat),
{
    if d < 10 { digit_char(d as u64) }
    else if d == 10 { 'a' }
    else if d == 11 { 'b' }
    else if d == 12 { 'c' }
    else if d == 13 { 'd' }
    else if d == 14 { 'e' }
    else { 'f' }
}

/// The lower-case hexadecimal text of `bytes`, two digits per byte.
pub fn hex_string(bytes: &Vec<u8>) -> (s: String)
    ensures
        s@ == hex_text(bytes@),
{
    let mut s = String::new();
    let n = bytes.len();
    for i in 0..n
        invariant
            n == bytes@.len(),
            s@.len() == 2 * i,
            forall|k: int| 0 <= k < 2 * i ==> s@[k] == #[trigger] hex_text(bytes@)[k],
    {
        let b = bytes[i];
        let ghost before = s@;
        push_char(&mut s, hex_digit_char(b / 16));
        push_char(&mut s, hex_digit_char(b % 16));
        proof {
            assert forall|k: int| 0 <= k < 2 * (i + 1) implies s@[k] == #[trigger] hex_text(bytes@)[k] by {
                if k < 2 * i {
                    assert(s@[k] == before[k]);
                } else if k == 2 * i {
                    assert(k / 2 == i);
                } else {
                    assert(k / 2 == i);
                }
            }
        }
    }
    proof {
        assert(s@ =~= hex_text(bytes@));
    }
    s
}

/// Whether `c` is a lower-case hexadecimal digit: `'0'` to `'9'` or `'a'` to `'f'`.
pub open spec fn is_lower_hex_char(c: char) -> bool {
    ('0' <= c && c <= '9') || ('a' <= c && c <= 'f')
}

/// The value of a lower-case hexadecimal digit character.
pub open spec fn hex_value(c: char) -> int {
    if '0' <= c && c <= '9' {
        (c as int) - ('0' as int)
    } else {
        (c as int) - ('a' as int) + 10
    }
}

proof fn lemma_hex_digit_char(d: nat)
    requires
        d < 16,
    ensures
        is_lower_hex_char(hex_digit(d)),
        hex_value(hex_digit(d)) == d,
{
}

/// Hex text is the usual two-digit lower-case form of each byte, in order:
/// two characters per byte, both lower-case hex digits, the first reading back
/// as the byte's high nibble and the second as its low nibble.
pub proof fn lemma_hex_text_reads_back(bytes: Seq<u8>)
    ensures
        hex_text(bytes).len() == 2 * bytes.len(),
        forall|i: int| 0 <= i < bytes.len() ==> {
            &&& is_lower_hex_char(#[trigger] hex_text(bytes)[2 * i])
            &&& is_lower_hex_char(hex_text(bytes)[2 * i + 1])
            &&& hex_value(hex_text(bytes)[2 * i]) == bytes[i] / 16
            &&& hex_value(hex_text(bytes)[2 * i + 1]) == bytes[i] % 16
        },
{
    assert forall|i: int| 0 <= i < bytes.len() implies {
        &&& is_lower_hex_char(#[trigger] hex_text(bytes)[2 * i])
        &&& is_lower_hex_char(hex_text(bytes)[2 * i + 1])
        &&& hex_value(hex_text(bytes)[2 * i]) == bytes[i] / 16
        &&& hex_value(hex_text(bytes)[2 * i + 1]) == bytes[i] % 16
    } by {
        let hi = 2 * i;
        let lo = 2 * i + 1;
        assert(hi / 2 == i && hi % 2 == 0);
        assert(lo / 2 == i && lo % 2 == 1);
        lemma_hex_digit_char((bytes[i] / 16) as nat);
        lemma_hex_digit_char((bytes[i] % 16) as nat);
        assert(hex_text(bytes)[hi] == hex_digit((bytes[i] / 16) as nat));
        assert(hex_text(bytes)[lo] == hex_digit((bytes[i] % 16) as nat));
    }
}

/// Byte rendering loses nothing: two byte strings with the same hex text are equal.
pub proof fn lemma_hex_text_injective(a: Seq<u8>, b: Seq<u8>)
    requires
        hex_text(a) == hex_text(b),
    ensures
        a == b,
{
    assert(hex_text(a).len() == 2 * a.len());
    assert(hex_text(b).len() == 2 * b.len());
    assert forall|i: int| 0 <= i < a.len() implies a[i] == b[i] by {
        let hi = 2 * i;
        let lo = 2 * i + 1;
        assert(hi / 2 == i && hi % 2 == 0);
        assert(lo / 2 == i && lo % 2 == 1);
        assert(hex_text(a)[hi] == hex_text(b)[hi]);
        assert(hex_text(a)[lo] == hex_text(b)[lo]);
        assert(hex_text(a)[hi] == hex_digit((a[i] / 16) as nat));
        assert(hex_text(b)[hi] == hex_digit((b[i] / 16) as nat));
        assert(hex_text(a)[lo] == hex_digit((a[i] % 16) as nat));
        assert(hex_text(b)[lo] == hex_digit((b[i] % 16) as nat));
        assert(hex_digit((a[i] / 16) as nat) == hex_digit((b[i] / 16) as nat));
        assert(hex_digit((a[i] % 16) as nat) == hex_digit((b[i] % 16) as nat));
        assert(a[i] / 16 == b[i] / 16);
        assert(a[i] % 16 == b[i] % 16);
        let x = a[i];
        let y = b[i];
        assert(x == (x / 16) * 16 + x % 16 && y == (y / 16) * 16 + y % 16) by (nonlinear_arith);
    }
    assert(a =~= b);
}

} // verus!
