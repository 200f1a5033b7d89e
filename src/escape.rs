//! Escaping of text and comment content into a single printable line.
use vstd::prelude::*;

verus! {

/// Whether `c` lies in the printable ASCII range, space to tilde.
pub open spec fn is_printable_ascii(c: char) -> bool {
    0x20 <= c as u32 <= 0x7e
}

/// The lowercase hexadecimal digit for `d < 16`.
pub open spec fn hex_digit(d: nat) -> char {
    if d == 0 {
        '0'
    } else if d == 1 {
        '1'
    } else if d == 2 {
        '2'
    } else if d == 3 {
        '3'
    } else if d == 4 {
        '4'
    } else if d == 5 {
        '5'
    } else if d == 6 {
        '6'
    } else if d == 7 {
        '7'
    } else if d == 8 {
        '8'
    } else if d == 9 {
        '9'
    } else if d == 10 {
        'a'
    } else if d == 11 {
        'b'
    } else if d == 12 {
        'c'
    } else if d == 13 {
        'd'
    } else if d == 14 {
        'e'
    } else {
        'f'
    }
}

/// `n` in lowercase hexadecimal, without leading zeros.
pub open spec fn hex_digits(n: nat) -> Seq<char>
    decreases n,
{
    if n < 16 {
        seq![hex_digit(n)]
    } else {
        hex_digits(n / 16).push(hex_digit(n % 16))
    }
}

/// The default escape of one character: the usual backslash forms for tab,
/// carriage return, line feed, quotes and backslash; printable ASCII as it is;
/// anything else as `\u{...}` with its code point in hexadecimal.
pub open spec fn char_escape(c: char) -> Seq<char> {
    if c == '\t' {
        seq!['\\', 't']
    } else if c == '\r' {
        seq!['\\', 'r']
    } else if c == '\n' {
        seq!['\\', 'n']
    } else if c == '\'' {
        seq!['\\', '\'']
    } else if c == '"' {
        seq!['\\', '"']
    } else if c == '\\' {
        seq!['\\', '\\']
    } else if is_printable_ascii(c) {
        seq![c]
    } else {
        seq!['\\', 'u', '{'] + hex_digits(c as nat) + seq!['}']
    }
}

/// Every character of `s` escaped, in order.
pub open spec fn escaped(s: Seq<char>) -> Seq<char>
    decreases s.len(),
{
    if s.len() == 0 {
        Seq::empty()
    } else {
        escaped(s.drop_last()) + char_escape(s.last())
    }
}

/// Relies on `char::escape_default`, whose documented rules are those of `char_escape`.
#[verifier::external_body]
fn escape_char(c: char) -> (r: String)
    ensures
        r@ == char_escape(c),
{
    c.escape_default().to_string()
}

/// `s` with every character replaced by its default escape.
pub fn escape_default(s: &str) -> (r: String)
    ensures
        r@ == escaped(s@),
{
    let mut r = String::new();
    let ghost mut done: Seq<char> = Seq::empty();
    for c in it: s.chars()
        invariant
            it.seq() == s@,
            done == s@.take(it.index() as int),
            r@ == escaped(done),
    {
        proof {
            done = done.push(c);
        }
        let e = escape_char(c);
        r.append(e.as_str());
        assert(done.drop_last() =~= s@.take(it.index() as int));
    }
    assert(done =~= s@);
    r
}

/// Every hexadecimal digit is printable ASCII.
proof fn lemma_hex_digits_printable(n: nat)
    ensures
        forall|i: int| 0 <= i < hex_digits(n).len() ==> is_printable_ascii(#[trigger] hex_digits(n)[i]),
    decreases n,
{
    assert(is_printable_ascii(hex_digit(n % 16)));
    if n >= 16 {
        lemma_hex_digits_printable(n / 16);
        let p = hex_digits(n / 16);
        assert forall|i: int| 0 <= i < hex_digits(n).len() implies is_printable_ascii(
            #[trigger] hex_digits(n)[i],
        ) by {
            if i < p.len() {
                assert(hex_digits(n)[i] == p[i]);
            }
        }
    }
}

/// The escape of any character is printable ASCII.
proof fn lemma_char_escape_printable(c: char)
    ensures
        forall|i: int| 0 <= i < char_escape(c).len() ==> is_printable_ascii(#[trigger] char_escape(c)[i]),
{
    lemma_hex_digits_printable(c as nat);
    let h = hex_digits(c as nat);
    let e = seq!['\\', 'u', '{'] + h + seq!['}'];
    assert forall|i: int| 0 <= i < e.len() implies is_printable_ascii(#[trigger] e[i]) by {
        if 3 <= i < 3 + h.len() {
            assert(e[i] == h[i - 3]);
        }
    }
}

/// Escaped content holds printable ASCII only, so never a control character
/// such as a line feed.
pub proof fn lemma_escaped_printable(s: Seq<char>)
    ensures
        forall|i: int| 0 <= i < escaped(s).len() ==> is_printable_ascii(#[trigger] escaped(s)[i]),
    decreases s.len(),
{
    if s.len() > 0 {
        lemma_escaped_printable(s.drop_last());
        lemma_char_escape_printable(s.last());
        let a = escaped(s.drop_last());
        let b = char_escape(s.last());
        assert forall|i: int| 0 <= i < escaped(s).len() implies is_printable_ascii(
            #[trigger] escaped(s)[i],
        ) by {
            if i >= a.len() {
                assert(escaped(s)[i] == b[i - a.len()]);
            } else {
                assert(escaped(s)[i] == a[i]);
            }
        }
    }
}

/// Content of printable ASCII without backslash or quotes is left as it is.
pub proof fn lemma_escaped_plain(s: Seq<char>)
    requires
        forall|i: int|
            0 <= i < s.len() ==> is_printable_ascii(#[trigger] s[i]) && s[i] != '\\' && s[i]
                != '\'' && s[i] != '"',
    ensures
        escaped(s) == s,
    decreases s.len(),
{
    if s.len() > 0 {
        lemma_escaped_plain(s.drop_last());
        assert(is_printable_ascii(s.last()));
        assert(s.drop_last().push(s.last()) =~= s);
    }
}

} // verus!
