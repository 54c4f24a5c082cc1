//! JSON text of strings and decimal text of numbers.
//!
//! Strings are written by `serde_json`; [`json_string`] states its compact form:
//! quotation mark, reverse solidus and the control characters are escaped, with the
//! short escapes `\b \f \n \r \t` where they exist and `\u00xx` (lower-case
//! hexadecimal) for the other control characters; every other character stands as
//! it is.

use vstd::prelude::*;

verus! {

/// The hexadecimal digits, lower case.
pub const HEX_DIGITS: [char; 16] = ['0', '1', '2', '3', '4', '5', '6', '7', '8', '9', 'a', 'b', 'c', 'd', 'e', 'f'];

/// The characters that stand for `c` inside a JSON string.
pub open spec fn escape_char(c: char) -> Seq<char> {
    if c == '"' {
        seq!['\\', '"']
    } else if c == '\\' {
        seq!['\\', '\\']
    } else if c == '\x08' {
        seq!['\\', 'b']
    } else if c == '\x0c' {
        seq!['\\', 'f']
    } else if c == '\n' {
        seq!['\\', 'n']
    } else if c == '\r' {
        seq!['\\', 'r']
    } else if c == '\t' {
        seq!['\\', 't']
    } else if (c as u32) < 0x20 {
        seq!['\\', 'u', '0', '0', HEX_DIGITS@[((c as u32) / 16) as int], HEX_DIGITS@[((c as u32) % 16) as int]]
    } else {
        seq![c]
    }
}

/// The characters that stand for `s` inside a JSON string.
pub open spec fn escape(s: Seq<char>) -> Seq<char>
    decreases s.len(),
{
    if s.len() == 0 {
        Seq::empty()
    } else {
        escape(s.drop_last()) + escape_char(s.last())
    }
}

/// The JSON string literal for `s`: `escape(s)` between quotation marks.
pub open spec fn json_string(s: Seq<char>) -> Seq<char> {
    seq!['"'] + escape(s) + seq!['"']
}

/// The decimal digits of `n`, most significant first, without leading zeros.
pub open spec fn decimal(n: nat) -> Seq<char>
    decreases n,
{
    if n < 10 {
        seq![HEX_DIGITS@[n as int]]
    } else {
        decimal(n / 10).push(HEX_DIGITS@[(n % 10) as int])
    }
}

/// The value of a lower-case hexadecimal digit.
pub open spec fn hex_value(c: char) -> int {
    let v = c as u32;
    if 48 <= v <= 57 {
        v - 48
    } else if 97 <= v <= 102 {
        v - 87
    } else {
        0
    }
}

/// The character that a two-character escape `\e` stands for.
pub open spec fn short_unescape(e: char) -> char {
    if e == 'b' {
        '\x08'
    } else if e == 'f' {
        '\x0c'
    } else if e == 'n' {
        '\n'
    } else if e == 'r' {
        '\r'
    } else if e == 't' {
        '\t'
    } else {
        e
    }
}

/// The characters that the contents `t` of a JSON string stand for, reading the
/// escapes `\"`, `\\`, `\/`, `\b`, `\f`, `\n`, `\r`, `\t` and `\uXXXX`.
pub open spec fn unescape(t: Seq<char>) -> Seq<char>
    decreases t.len(),
{
    if t.len() == 0 {
        Seq::empty()
    } else if t[0] != '\\' || t.len() < 2 {
        seq![t[0]] + unescape(t.drop_first())
    } else if t[1] == 'u' && t.len() >= 6 {
        seq![
            ((hex_value(t[2]) * 4096 + hex_value(t[3]) * 256 + hex_value(t[4]) * 16 + hex_value(t[5])) as u32) as char,
        ] + unescape(t.skip(6))
    } else {
        seq![short_unescape(t[1])] + unescape(t.skip(2))
    }
}

/// Escaping distributes over concatenation.
pub proof fn lemma_escape_append(a: Seq<char>, b: Seq<char>)
    ensures
        escape(a + b) == escape(a) + escape(b),
    decreases b.len(),
{
    if b.len() == 0 {
        assert(a + b =~= a);
        assert(escape(a) + escape(b) =~= escape(a));
    } else {
        lemma_escape_append(a, b.drop_last());
        assert((a + b).drop_last() =~= a + b.drop_last());
        assert((a + b).last() == b.last());
        assert(escape(a + b) =~= escape(a) + escape(b));
    }
}

/// The digits of the hexadecimal table have the values of their positions.
proof fn lemma_hex_digit_value(k: int)
    requires
        0 <= k < 16,
    ensures
        hex_value(HEX_DIGITS@[k]) == k,
{
    assert(forall|j: int| 0 <= j < 16 ==> #[trigger] HEX_DIGITS@[j] as u32 == (if j < 10 { 48 + j } else { 87 + j }));
}

/// Reading back the escape of one character gives that character.
proof fn lemma_unescape_char(c: char, rest: Seq<char>)
    ensures
        unescape(escape_char(c) + rest) == seq![c] + unescape(rest),
{
    let t = escape_char(c) + rest;
    if c == '"' || c == '\\' || c == '\x08' || c == '\x0c' || c == '\n' || c == '\r' || c == '\t' {
        assert(t.skip(2) =~= rest);
        assert(t[0] == '\\');
    } else if (c as u32) < 0x20 {
        let v = c as u32;
        lemma_hex_digit_value((v / 16) as int);
        lemma_hex_digit_value((v % 16) as int);
        assert(t.skip(6) =~= rest);
        assert(t[0] == '\\' && t[1] == 'u' && t[2] == '0' && t[3] == '0');
        assert(hex_value('0') == 0);
        assert(hex_value(t[4]) * 16 + hex_value(t[5]) == v);
        assert((((hex_value(t[2]) * 4096 + hex_value(t[3]) * 256 + hex_value(t[4]) * 16 + hex_value(t[5])) as u32) as char) == c);
    } else {
        assert(t.drop_first() =~= rest);
        assert(t[0] == c);
    }
    assert(unescape(t) =~= seq![c] + unescape(rest));
}

/// Reading back the escape of a text gives the text: escaping loses nothing, so
/// different texts never escape to the same characters.
pub proof fn law_unescape_escape(s: Seq<char>)
    ensures
        unescape(escape(s)) == s,
    decreases s.len(),
{
    if s.len() > 0 {
        let rest = s.drop_first();
        assert(s =~= seq![s[0]] + rest);
        lemma_escape_append(seq![s[0]], rest);
        assert(seq![s[0]].drop_last() =~= Seq::<char>::empty());
        assert(seq![s[0]].last() == s[0]);
        assert(escape(Seq::<char>::empty()) == Seq::<char>::empty());
        assert(Seq::<char>::empty() + escape_char(s[0]) =~= escape_char(s[0]));
        assert(escape(seq![s[0]]) =~= escape_char(s[0]));
        lemma_unescape_char(s[0], escape(rest));
        law_unescape_escape(rest);
        assert(unescape(escape(s)) =~= s);
    }
}

/// Escaping is one-to-one.
pub proof fn law_escape_injective(a: Seq<char>, b: Seq<char>)
    requires
        escape(a) == escape(b),
    ensures
        a == b,
{
    law_unescape_escape(a);
    law_unescape_escape(b);
}

/// Escaped text holds no control character: every character of it is at or above
/// U+0020, as the JSON grammar requires inside a string.
pub proof fn law_escape_has_no_control_characters(s: Seq<char>)
    ensures
        forall|i: int| 0 <= i < escape(s).len() ==> (#[trigger] escape(s)[i]) as u32 >= 0x20,
    decreases s.len(),
{
    if s.len() > 0 {
        law_escape_has_no_control_characters(s.drop_last());
        let c = s.last();
        if (c as u32) < 0x20 && !(c == '\x08' || c == '\x0c' || c == '\n' || c == '\r' || c == '\t') {
            lemma_hex_digit_value(((c as u32) / 16) as int);
            lemma_hex_digit_value(((c as u32) % 16) as int);
            assert(forall|j: int| 0 <= j < 16 ==> #[trigger] HEX_DIGITS@[j] as u32 >= 48);
        }
        let e = escape(s.drop_last());
        assert forall|i: int| 0 <= i < escape(s).len() implies (#[trigger] escape(s)[i]) as u32 >= 0x20 by {
            if i >= e.len() {
                assert(escape(s)[i] == escape_char(c)[i - e.len()]);
            } else {
                assert(escape(s)[i] == e[i]);
            }
        }
    }
}

/// The number that a sequence of decimal digits stands for.
pub open spec fn decimal_value(t: Seq<char>) -> int
    decreases t.len(),
{
    if t.len() == 0 {
        0
    } else {
        decimal_value(t.drop_last()) * 10 + hex_value(t.last())
    }
}

/// The decimal digits of a number are digits, at least one, and they stand for the
/// number.
pub proof fn law_decimal_value(n: nat)
    ensures
        decimal(n).len() > 0,
        forall|i: int| 0 <= i < decimal(n).len() ==> 48 <= (#[trigger] decimal(n)[i]) as u32 <= 57,
        decimal_value(decimal(n)) == n,
    decreases n,
{
    assert(forall|j: int| 0 <= j < 10 ==> #[trigger] HEX_DIGITS@[j] as u32 == 48 + j);
    lemma_hex_digit_value((n % 10) as int);
    if n >= 10 {
        law_decimal_value(n / 10);
        assert(decimal(n).drop_last() =~= decimal(n / 10));
        assert(decimal(n).last() == HEX_DIGITS@[(n % 10) as int]);
        assert(decimal_value(decimal(n)) == decimal_value(decimal(n / 10)) * 10 + hex_value(decimal(n).last()));
        assert((n / 10) * 10 + n % 10 == n);
        assert forall|i: int| 0 <= i < decimal(n).len() implies 48 <= (#[trigger] decimal(n)[i]) as u32 <= 57 by {
            if i < decimal(n / 10).len() {
                assert(decimal(n)[i] == decimal(n / 10)[i]);
            }
        }
    } else {
        assert(decimal(n).drop_last() =~= Seq::<char>::empty());
        assert(decimal_value(Seq::<char>::empty()) == 0);
        assert(decimal(n).last() == HEX_DIGITS@[n as int]);
    }
}

/// The JSON text of the string `s`, through `serde_json::to_string`.
///
/// `serde_json::to_string` on a `&str` writes a quotation mark, the string's bytes
/// with the escapes of its table (`ESCAPE` and `write_char_escape` in its `ser.rs`:
/// `\"`, `\\`, `\b`, `\f`, `\n`, `\r`, `\t`, and `\u00xx` in lower-case
/// hexadecimal for the other bytes below 0x20), and a closing quotation mark, into a
/// `Vec` whose writes cannot fail; it returns `Ok` on every string. The contract
/// states that text through [`json_string`].
#[verifier::external_body]
pub(crate) fn json_string_text(s: &str) -> (res: String)
    ensures
        res@ == json_string(s@),
{
    match serde_json::to_string(s) {
        Ok(text) => text,
        Err(_) => String::new(),
    }
}

/// Appends the decimal digits of `n`.
fn push_decimal(out: &mut String, n: u16)
    ensures
        final(out)@ == old(out)@ + decimal(n as nat),
    decreases n,
{
    let ghost start = out@;
    if n >= 10 {
        push_decimal(out, n / 10);
    }
    let digits = "0123456789";
    proof {
        reveal_strlit("0123456789");
        assert(forall|j: int| 0 <= j < 10 ==> #[trigger] HEX_DIGITS@[j] == digits@[j]);
    }
    let d = (n % 10) as usize;
    let digit = digits.substring_char(d, d + 1);
    assert(digit@ =~= seq![HEX_DIGITS@[d as int]]);
    out.append(digit);
    assert(out@ =~= start + decimal(n as nat));
}

/// The decimal digits of `n`, most significant first, without leading zeros.
pub(crate) fn decimal_text(n: u16) -> (res: String)
    ensures
        res@ == decimal(n as nat),
{
    let mut res = String::new();
    push_decimal(&mut res, n);
    assert(res@ =~= decimal(n as nat));
    res
}

} // verus!
