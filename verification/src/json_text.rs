//! Writing JSON text: strings with their escapes and integers in decimal, as the lines
//! of the simulator protocol and of the run logs are written.
use vstd::prelude::*;

verus! {

/// The digit or lower-case letter that stands for `d` (below 16) in base 16.
pub open spec fn hex_char(d: nat) -> char {
    if d < 10 {
        (('0' as nat) + d) as char
    } else {
        (('a' as nat) + d - 10) as char
    }
}

/// The decimal digits of `n`, with no leading zero.
pub open spec fn decimal(n: nat) -> Seq<char>
    decreases n,
{
    if n < 10 {
        seq![hex_char(n)]
    } else {
        decimal(n / 10) + seq![hex_char(n % 10)]
    }
}

/// The decimal text of the integer `n`: a minus sign before the digits when it is
/// negative.
pub open spec fn signed_decimal(n: int) -> Seq<char> {
    if n < 0 {
        seq!['-'] + decimal((-n) as nat)
    } else {
        decimal(n as nat)
    }
}

/// Whether `c` is one of the decimal digits `0` to `9`.
pub open spec fn is_decimal_digit(c: char) -> bool {
    '0' <= c && c <= '9'
}

/// The number that the decimal digits `s` stand for, the last digit counting ones.
pub open spec fn digits_value(s: Seq<char>) -> int
    decreases s.len(),
{
    if s.len() == 0 {
        0
    } else {
        digits_value(s.drop_last()) * 10 + ((s.last() as int) - ('0' as int))
    }
}

/// `decimal(n)` is the base-ten numeral of `n`: it is made of decimal digits only, they
/// read back as `n`, and it has no leading zero (zero itself is the single digit `0`).
pub proof fn decimal_is_base_ten(n: nat)
    ensures
        decimal(n).len() >= 1,
        forall|i: int| 0 <= i < decimal(n).len() ==> is_decimal_digit(#[trigger] decimal(n)[i]),
        digits_value(decimal(n)) == n,
        decimal(n)[0] == '0' ==> n == 0 && decimal(n).len() == 1,
    decreases n,
{
    if n >= 10 {
        decimal_is_base_ten(n / 10);
        let d = decimal(n / 10);
        assert((d + seq![hex_char(n % 10)]).drop_last() =~= d);
        assert(n == (n / 10) * 10 + n % 10) by (nonlinear_arith);
        assert(decimal(n)[0] == d[0]);
        assert(decimal(n).drop_last() == d);
        assert(decimal(n).last() == hex_char(n % 10));
        assert((hex_char(n % 10) as int) == ('0' as int) + n % 10);
        assert(digits_value(decimal(n)) == digits_value(d) * 10 + n % 10);
        assert(digits_value(decimal(n)) == n);
    } else {
        assert((hex_char(n) as int) == ('0' as int) + n);
        assert(decimal(n).drop_last() =~= Seq::<char>::empty());
        assert(digits_value(Seq::<char>::empty()) == 0);
        assert(digits_value(decimal(n)) == n);
    }
}

/// `signed_decimal(n)` is the numeral of the integer `n`: a minus sign exactly when `n`
/// is negative, followed by the base-ten numeral of its magnitude.
pub proof fn signed_decimal_is_base_ten(n: int)
    ensures
        n < 0 ==> signed_decimal(n)[0] == '-' && signed_decimal(n).drop_first() == decimal((-n) as nat),
        n >= 0 ==> signed_decimal(n) == decimal(n as nat),
        forall|i: int|
            0 <= i < signed_decimal(n).len() && !(n < 0 && i == 0) ==> is_decimal_digit(
                #[trigger] signed_decimal(n)[i],
            ),
        n < 0 ==> digits_value(signed_decimal(n).drop_first()) == -n,
        n >= 0 ==> digits_value(signed_decimal(n)) == n,
{
    if n < 0 {
        decimal_is_base_ten((-n) as nat);
        assert((seq!['-'] + decimal((-n) as nat)).drop_first() =~= decimal((-n) as nat));
        assert forall|i: int| 0 < i < signed_decimal(n).len() implies is_decimal_digit(
            #[trigger] signed_decimal(n)[i],
        ) by {
            assert(signed_decimal(n)[i] == decimal((-n) as nat)[i - 1]);
        }
    } else {
        decimal_is_base_ten(n as nat);
    }
}

/// How the character `c` is written inside a JSON string: quotation mark and backslash
/// behind a backslash, the control characters with a short escape where JSON has one and
/// as `\u00` and two hexadecimal digits otherwise, every other character as itself.
pub open spec fn escape_char(c: char) -> Seq<char> {
    if c == '"' {
        seq!['\\', '"']
    } else if c == '\\' {
        seq!['\\', '\\']
    } else if c == '\u{8}' {
        seq!['\\', 'b']
    } else if c == '\t' {
        seq!['\\', 't']
    } else if c == '\n' {
        seq!['\\', 'n']
    } else if c == '\u{c}' {
        seq!['\\', 'f']
    } else if c == '\r' {
        seq!['\\', 'r']
    } else if (c as nat) < 0x20 {
        seq!['\\', 'u', '0', '0', hex_char((c as nat) / 16), hex_char((c as nat) % 16)]
    } else {
        seq![c]
    }
}

/// The characters of `s`, each escaped.
pub open spec fn escaped(s: Seq<char>) -> Seq<char>
    decreases s.len(),
{
    if s.len() == 0 {
        Seq::empty()
    } else {
        escaped(s.drop_last()) + escape_char(s.last())
    }
}

/// `s` as a JSON string: between quotation marks, each character escaped.
pub open spec fn json_string(s: Seq<char>) -> Seq<char> {
    seq!['"'] + escaped(s) + seq!['"']
}

/// The digit or letter for `d` in base 16.
fn hex_digit(d: u32) -> (r: &'static str)
    requires
        d < 16,
    ensures
        r@ == seq![hex_char(d as nat)],
{
    match d {
        0 => { proof { reveal_strlit("0"); } "0" },
        1 => { proof { reveal_strlit("1"); } "1" },
        2 => { proof { reveal_strlit("2"); } "2" },
        3 => { proof { reveal_strlit("3"); } "3" },
        4 => { proof { reveal_strlit("4"); } "4" },
        5 => { proof { reveal_strlit("5"); } "5" },
        6 => { proof { reveal_strlit("6"); } "6" },
        7 => { proof { reveal_strlit("7"); } "7" },
        8 => { proof { reveal_strlit("8"); } "8" },
        9 => { proof { reveal_strlit("9"); } "9" },
        10 => { proof { reveal_strlit("a"); } "a" },
        11 => { proof { reveal_strlit("b"); } "b" },
        12 => { proof { reveal_strlit("c"); } "c" },
        13 => { proof { reveal_strlit("d"); } "d" },
        14 => { proof { reveal_strlit("e"); } "e" },
        _ => { proof { reveal_strlit("f"); } "f" },
    }
}

/// Appends the decimal digits of `n`.
pub fn push_decimal(out: &mut String, n: u64)
    ensures
        final(out)@ == old(out)@ + decimal(n as nat),
    decreases n,
{
    if n >= 10 {
        push_decimal(out, n / 10);
    }
    let d = (n % 10) as u32;
    out.append(hex_digit(d));
    proof {
        assert(out@ =~= old(out)@ + decimal(n as nat));
    }
}

/// Appends the decimal text of `n`.
pub fn push_signed(out: &mut String, n: i64)
    ensures
        final(out)@ == old(out)@ + signed_decimal(n as int),
{
    if n < 0 {
        out.append("-");
        let magnitude = (0i128 - n as i128) as u64;
        push_decimal(out, magnitude);
        proof {
            reveal_strlit("-");
            assert(out@ =~= old(out)@ + signed_decimal(n as int));
        }
    } else {
        push_decimal(out, n as u64);
    }
}

/// Appends how `c` is written inside a JSON string.
fn push_escaped_char(out: &mut String, s: &str, i: usize)
    requires
        i < s@.len() <= usize::MAX,
    ensures
        final(out)@ == old(out)@ + escape_char(s@[i as int]),
{
    let c = s.get_char(i);
    if c == '"' {
        out.append("\\\"");
        proof { reveal_strlit("\\\""); }
    } else if c == '\\' {
        out.append("\\\\");
        proof { reveal_strlit("\\\\"); }
    } else if c == '\u{8}' {
        out.append("\\b");
        proof { reveal_strlit("\\b"); }
    } else if c == '\t' {
        out.append("\\t");
        proof { reveal_strlit("\\t"); }
    } else if c == '\n' {
        out.append("\\n");
        proof { reveal_strlit("\\n"); }
    } else if c == '\u{c}' {
        out.append("\\f");
        proof { reveal_strlit("\\f"); }
    } else if c == '\r' {
        out.append("\\r");
        proof { reveal_strlit("\\r"); }
    } else if (c as u32) < 0x20 {
        let code = c as u32;
        out.append("\\u00");
        out.append(hex_digit(code / 16));
        out.append(hex_digit(code % 16));
        proof {
            reveal_strlit("\\u00");
            assert(out@ =~= old(out)@ + escape_char(c));
        }
    } else {
        out.append(s.substring_char(i, i + 1));
        proof {
            assert(s@.subrange(i as int, i + 1) =~= seq![c]);
        }
    }
}

/// Appends `s` as a JSON string.
pub fn push_json_string(out: &mut String, s: &str)
    ensures
        final(out)@ == old(out)@ + json_string(s@),
{
    let ghost base = out@;
    out.append("\"");
    proof {
        reveal_strlit("\"");
        assert(s@.subrange(0, 0) =~= Seq::<char>::empty());
    }
    let n = s.unicode_len();
    let mut i: usize = 0;
    while i < n
        invariant
            n == s@.len(),
            i <= n,
            out@ == base + seq!['"'] + escaped(s@.subrange(0, i as int)),
        decreases n - i,
    {
        push_escaped_char(out, s, i);
        proof {
            assert(s@.subrange(0, i + 1).drop_last() =~= s@.subrange(0, i as int));
            assert(out@ =~= base + seq!['"'] + escaped(s@.subrange(0, i + 1)));
        }
        i += 1;
    }
    out.append("\"");
    proof {
        assert(s@.subrange(0, n as int) =~= s@);
        assert(out@ =~= base + json_string(s@));
    }
}

// ---------------------------------------------------------------------------
// Reading a JSON string back
// ---------------------------------------------------------------------------

/// The value of the hexadecimal digit `c` (either case), `None` for any other character.
pub open spec fn hex_digit_value(c: char) -> Option<nat> {
    if '0' <= c && c <= '9' {
        Some((c as nat - '0' as nat) as nat)
    } else if 'a' <= c && c <= 'f' {
        Some((c as nat - 'a' as nat + 10) as nat)
    } else if 'A' <= c && c <= 'F' {
        Some((c as nat - 'A' as nat + 10) as nat)
    } else {
        None
    }
}

/// The character named by the four hexadecimal digits `h` of a `\u` escape, when they are
/// hexadecimal digits and name a character on their own (not half of a surrogate pair).
pub open spec fn unicode_escape_char(h: Seq<char>) -> Option<char> {
    match (hex_digit_value(h[0]), hex_digit_value(h[1]), hex_digit_value(h[2]), hex_digit_value(h[3])) {
        (Some(a), Some(b), Some(c), Some(d)) => {
            let v = a * 4096 + b * 256 + c * 16 + d;
            if 0xD800 <= v && v <= 0xDFFF {
                None
            } else {
                Some(v as char)
            }
        },
        _ => None,
    }
}

/// The character that the escape `\e` stands for, for the one-letter escapes of JSON.
pub open spec fn short_escape_char(e: char) -> Option<char> {
    if e == '"' || e == '\\' || e == '/' {
        Some(e)
    } else if e == 'b' {
        Some('\u{8}')
    } else if e == 'f' {
        Some('\u{c}')
    } else if e == 'n' {
        Some('\n')
    } else if e == 'r' {
        Some('\r')
    } else if e == 't' {
        Some('\t')
    } else {
        None
    }
}

/// `c` before the characters `r`, if they were read.
pub open spec fn read_on(c: char, r: Option<Seq<char>>) -> Option<Seq<char>> {
    match r {
        Some(rest) => Some(seq![c] + rest),
        None => None,
    }
}

/// What the body `t` of a JSON string (the text between its quotation marks) stands for,
/// read by the rules of JSON: `None` when it is not a valid body, that is when it holds
/// a bare quotation mark, a bare control character, or a backslash that starts no valid
/// escape.
pub open spec fn read_string_body(t: Seq<char>) -> Option<Seq<char>>
    decreases t.len(),
{
    if t.len() == 0 {
        Some(Seq::empty())
    } else if t[0] == '"' || (t[0] as nat) < 0x20 {
        None
    } else if t[0] == '\\' {
        if t.len() < 2 {
            None
        } else if t[1] == 'u' {
            if t.len() < 6 {
                None
            } else {
                match unicode_escape_char(t.subrange(2, 6)) {
                    Some(c) => read_on(c, read_string_body(t.subrange(6, t.len() as int))),
                    None => None,
                }
            }
        } else {
            match short_escape_char(t[1]) {
                Some(c) => read_on(c, read_string_body(t.subrange(2, t.len() as int))),
                None => None,
            }
        }
    } else {
        read_on(t[0], read_string_body(t.drop_first()))
    }
}

proof fn lemma_escaped_front(c: char, s: Seq<char>)
    ensures
        escaped(seq![c] + s) == escape_char(c) + escaped(s),
    decreases s.len(),
{
    if s.len() == 0 {
        assert(seq![c] + s =~= seq![c]);
        assert(seq![c].drop_last() =~= Seq::<char>::empty());
        assert(escaped(Seq::<char>::empty()) =~= Seq::<char>::empty());
        assert(seq![c].last() == c);
        assert(escaped(seq![c]) =~= escape_char(c));
        assert(escape_char(c) + escaped(s) =~= escape_char(c));
    } else {
        lemma_escaped_front(c, s.drop_last());
        assert((seq![c] + s).drop_last() =~= seq![c] + s.drop_last());
        assert((seq![c] + s).last() == s.last());
        assert(escaped(seq![c] + s) =~= escape_char(c) + escaped(s));
    }
}

proof fn lemma_hex_char_value(d: nat)
    requires
        d < 16,
    ensures
        hex_digit_value(hex_char(d)) == Some(d),
{
}

proof fn lemma_read_escaped_char(c: char, rest: Seq<char>)
    ensures
        read_string_body(escape_char(c) + rest) == read_on(c, read_string_body(rest)),
{
    let t = escape_char(c) + rest;
    if escape_char(c).len() == 2 {
        assert(t.subrange(2, t.len() as int) =~= rest);
    } else if escape_char(c).len() == 6 {
        let v = c as nat;
        lemma_hex_char_value(v / 16);
        lemma_hex_char_value(v % 16);
        assert(t.subrange(2, 6) =~= seq!['0', '0', hex_char(v / 16), hex_char(v % 16)]);
        assert(t.subrange(6, t.len() as int) =~= rest);
        assert(v == (v / 16) * 16 + v % 16);
        assert(unicode_escape_char(t.subrange(2, 6)) == Some(c));
    } else {
        assert(t.drop_first() =~= rest);
    }
}

/// Escaping loses nothing: the body of `json_string(s)` is a valid JSON string body, and
/// read back by the rules of JSON it gives `s` again, whatever characters `s` holds.
pub proof fn json_string_reads_back(s: Seq<char>)
    ensures
        read_string_body(escaped(s)) == Some(s),
        json_string(s) == seq!['"'] + escaped(s) + seq!['"'],
    decreases s.len(),
{
    if s.len() == 0 {
        assert(escaped(s) =~= Seq::<char>::empty());
    } else {
        json_string_reads_back(s.drop_first());
        assert(s =~= seq![s[0]] + s.drop_first());
        lemma_escaped_front(s[0], s.drop_first());
        lemma_read_escaped_char(s[0], escaped(s.drop_first()));
        assert(seq![s[0]] + s.drop_first() =~= s);
    }
}

// ---------------------------------------------------------------------------
// Where a piece of text occurs
// ---------------------------------------------------------------------------

/// `piece` occurs in `text` at position `i`.
pub open spec fn occurs_at(text: Seq<char>, i: int, piece: Seq<char>) -> bool {
    0 <= i && i + piece.len() <= text.len() && text.subrange(i, i + piece.len()) == piece
}

/// `piece` occurs somewhere in `text`.
pub open spec fn contains_text(text: Seq<char>, piece: Seq<char>) -> bool {
    exists|i: int| occurs_at(text, i, piece)
}

/// `text` begins with `prefix`.
pub open spec fn starts_with(text: Seq<char>, prefix: Seq<char>) -> bool {
    text.len() >= prefix.len() && text.subrange(0, prefix.len() as int) == prefix
}

pub(crate) proof fn lemma_occurs_in_middle(a: Seq<char>, m: Seq<char>, c: Seq<char>)
    ensures
        occurs_at(a + m + c, a.len() as int, m),
        contains_text(a + m + c, m),
{
    assert((a + m + c).subrange(a.len() as int, (a.len() + m.len()) as int) =~= m);
}

pub(crate) proof fn lemma_contains_widen(p: Seq<char>, s: Seq<char>, q: Seq<char>, m: Seq<char>)
    requires
        contains_text(s, m),
    ensures
        contains_text(p + s + q, m),
{
    let i = choose|i: int| occurs_at(s, i, m);
    assert((p + s + q).subrange(p.len() + i, p.len() + i + m.len()) =~= s.subrange(i, i + m.len()));
    assert(occurs_at(p + s + q, p.len() + i, m));
}

/// `text` ends with `suffix`.
pub open spec fn ends_in(text: Seq<char>, suffix: Seq<char>) -> bool {
    text.len() >= suffix.len() && text.subrange(text.len() - suffix.len(), text.len() as int) == suffix
}

pub(crate) proof fn lemma_occurs_extend(a: Seq<char>, b: Seq<char>, i: int, m: Seq<char>)
    requires
        occurs_at(a, i, m),
    ensures
        occurs_at(a + b, i, m),
{
    assert((a + b).subrange(i, i + m.len()) =~= a.subrange(i, i + m.len()));
}

pub(crate) proof fn lemma_occurs_shift(a: Seq<char>, b: Seq<char>, i: int, m: Seq<char>)
    requires
        occurs_at(b, i, m),
    ensures
        occurs_at(a + b, a.len() + i, m),
{
    assert((a + b).subrange(a.len() + i, a.len() + i + m.len()) =~= b.subrange(i, i + m.len()));
}

pub(crate) proof fn lemma_occurs_span(a: Seq<char>, k: Seq<char>, v: Seq<char>)
    requires
        ends_in(a, k),
    ensures
        occurs_at(a + v, a.len() - k.len(), k + v),
{
    let i = a.len() - k.len();
    assert forall|j: int| 0 <= j < k.len() implies #[trigger] (a + v)[i + j] == k[j] by {
        assert(a.subrange(i, a.len() as int)[j] == a[i + j]);
    }
    assert((a + v).subrange(i, i + (k + v).len()) =~= k + v);
}

pub(crate) proof fn lemma_ends_in_append(x: Seq<char>, y: Seq<char>, k: Seq<char>)
    requires
        ends_in(y, k),
    ensures
        ends_in(x + y, k),
{
    assert((x + y).subrange((x + y).len() - k.len(), (x + y).len() as int) =~= y.subrange(
        y.len() - k.len(),
        y.len() as int,
    ));
}

} // verus!
