//! JSON strings, as they stand in signaling messages and in the list of streams.
use vstd::prelude::*;

use crate::text;

verus! {

/// The hexadecimal digit, in lower case, that stands for `d`.
pub open spec fn hex_digit(d: int) -> char
    recommends
        0 <= d < 16,
{
    if d < 10 {
        (48 + d) as char
    } else {
        (87 + d) as char
    }
}

/// How a character is written inside a JSON string: quotation marks, backslashes and
/// control characters are escaped, every other character stands for itself.
pub open spec fn escaped_char(c: char) -> Seq<char> {
    if c == '"' || c == '\\' {
        seq!['\\', c]
    } else if c as int == 8 {
        seq!['\\', 'b']
    } else if c as int == 9 {
        seq!['\\', 't']
    } else if c as int == 10 {
        seq!['\\', 'n']
    } else if c as int == 12 {
        seq!['\\', 'f']
    } else if c as int == 13 {
        seq!['\\', 'r']
    } else if (c as int) < 32 {
        seq!['\\', 'u', '0', '0', hex_digit(c as int / 16), hex_digit(c as int % 16)]
    } else {
        seq![c]
    }
}

/// The characters of `text`, each as it is written inside a JSON string.
pub open spec fn escaped(text: Seq<char>) -> Seq<char>
    decreases text.len(),
{
    if text.len() == 0 {
        Seq::empty()
    } else {
        escaped_char(text[0]) + escaped(text.drop_first())
    }
}

/// `text` as a JSON string.
pub open spec fn json_text(text: Seq<char>) -> Seq<char> {
    seq!['"'] + escaped(text) + seq!['"']
}

/// Writes `text` as a JSON string with `serde_json::to_string`.
///
/// Trusted: the result is a quotation mark, the characters of `text` with quotation
/// marks, backslashes and the characters below U+0020 escaped as `escaped_char` says, and
/// a quotation mark. Writing a string into memory does not fail, so `expect` does not
/// panic.
#[verifier::external_body]
pub(crate) fn json_string(text: &str) -> (r: String)
    ensures
        r@ == json_text(text@),
{
    serde_json::to_string(text).expect("a string is always written")
}

/// From a character written inside a JSON string, and whatever follows, the character can
/// be read back.
proof fn lemma_escaped_char_prefix_code(c: char, d: char, x: Seq<char>, y: Seq<char>)
    requires
        escaped_char(c) + x == escaped_char(d) + y,
    ensures
        c == d,
        x == y,
{
    let p = escaped_char(c);
    let q = escaped_char(d);
    let l = p + x;
    let r = q + y;
    assert(p[0] == l[0] && q[0] == r[0]);
    if p.len() > 1 {
        assert(p[1] == l[1]);
    }
    if q.len() > 1 {
        assert(q[1] == r[1]);
    }
    if p.len() == 6 {
        assert(p[4] == l[4] && p[5] == l[5]);
    }
    if q.len() == 6 {
        assert(q[4] == r[4] && q[5] == r[5]);
    }
    assert(c == d);
    assert(x =~= l.skip(p.len() as int));
    assert(y =~= r.skip(q.len() as int));
}

/// Two JSON strings that begin two equal texts hold the same characters, and what follows
/// them is the same.
pub proof fn law_json_text_prefix_code(a: Seq<char>, b: Seq<char>, x: Seq<char>, y: Seq<char>)
    requires
        json_text(a) + x == json_text(b) + y,
    ensures
        a == b,
        x == y,
{
    let l = json_text(a) + x;
    let r = json_text(b) + y;
    assert(l.skip(1) =~= escaped(a) + (seq!['"'] + x));
    assert(r.skip(1) =~= escaped(b) + (seq!['"'] + y));
    lemma_escaped_prefix_code(a, b, x, y);
}

proof fn lemma_escaped_prefix_code(a: Seq<char>, b: Seq<char>, x: Seq<char>, y: Seq<char>)
    requires
        escaped(a) + (seq!['"'] + x) == escaped(b) + (seq!['"'] + y),
    ensures
        a == b,
        x == y,
    decreases a.len(),
{
    let quote = seq!['"'];
    let l = escaped(a) + (quote + x);
    let r = escaped(b) + (quote + y);
    if a.len() == 0 && b.len() == 0 {
        assert(l.skip(1) =~= x);
        assert(r.skip(1) =~= y);
        assert(a =~= b);
    } else if a.len() == 0 {
        assert(l[0] == '"');
        assert(r[0] == escaped_char(b[0])[0]);
        assert(false);
    } else if b.len() == 0 {
        assert(r[0] == '"');
        assert(l[0] == escaped_char(a[0])[0]);
        assert(false);
    } else {
        let s = escaped(a.drop_first()) + (quote + x);
        let t = escaped(b.drop_first()) + (quote + y);
        assert(l =~= escaped_char(a[0]) + s);
        assert(r =~= escaped_char(b[0]) + t);
        lemma_escaped_char_prefix_code(a[0], b[0], s, t);
        lemma_escaped_prefix_code(a.drop_first(), b.drop_first(), x, y);
        assert(a =~= seq![a[0]] + a.drop_first());
        assert(b =~= seq![b[0]] + b.drop_first());
    }
}

/// What a JSON value says, for the two kinds of value that are members here.
pub enum Value {
    Text(Seq<char>),
    Number(int),
}

/// What a hexadecimal digit in lower case stands for.
pub open spec fn hex_value(c: char) -> int {
    if c <= '9' {
        c as int - '0' as int
    } else {
        c as int - 'a' as int + 10
    }
}

/// The first character of the rest of a JSON string, and what stands behind it.
pub open spec fn read_char(t: Seq<char>) -> (char, Seq<char>) {
    if t[0] != '\\' {
        (t[0], t.skip(1))
    } else if t[1] == 'b' {
        ('\u{8}', t.skip(2))
    } else if t[1] == 't' {
        ('\t', t.skip(2))
    } else if t[1] == 'n' {
        ('\n', t.skip(2))
    } else if t[1] == 'f' {
        ('\u{c}', t.skip(2))
    } else if t[1] == 'r' {
        ('\r', t.skip(2))
    } else if t[1] == 'u' {
        (
            (hex_value(t[2]) * 4096 + hex_value(t[3]) * 256 + hex_value(t[4]) * 16 + hex_value(
                t[5],
            )) as char,
            t.skip(6),
        )
    } else {
        (t[1], t.skip(2))
    }
}

/// The characters of the rest of a JSON string, and what stands behind its closing
/// quotation mark.
pub open spec fn read_characters(t: Seq<char>) -> Option<(Seq<char>, Seq<char>)>
    decreases t.len(),
{
    if t.len() == 0 {
        None
    } else if t[0] == '"' {
        Some((Seq::empty(), t.skip(1)))
    } else {
        let (c, behind) = read_char(t);
        if behind.len() < t.len() {
            match read_characters(behind) {
                Some((characters, rest)) => Some((seq![c] + characters, rest)),
                None => None,
            }
        } else {
            None
        }
    }
}

/// How many digits `t` begins with.
pub open spec fn leading_digits(t: Seq<char>) -> nat
    decreases t.len(),
{
    if t.len() > 0 && '0' <= t[0] <= '9' {
        1 + leading_digits(t.skip(1))
    } else {
        0
    }
}

/// The string or number that `t` begins with, and what stands behind it.
pub open spec fn read_value(t: Seq<char>) -> Option<(Value, Seq<char>)> {
    if t.len() > 0 && t[0] == '"' {
        match read_characters(t.skip(1)) {
            Some((characters, rest)) => Some((Value::Text(characters), rest)),
            None => None,
        }
    } else if leading_digits(t) > 0 {
        let n = leading_digits(t) as int;
        Some((Value::Number(text::numeral_value(t.take(n))), t.skip(n)))
    } else {
        None
    }
}

/// The member that `t` begins with: its key, its value, and what stands behind it.
pub open spec fn read_member(t: Seq<char>) -> Option<(Seq<char>, Value, Seq<char>)> {
    match read_value(t) {
        Some((Value::Text(key), behind)) => if behind.len() > 0 && behind[0] == ':' {
            match read_value(behind.skip(1)) {
                Some((value, rest)) => Some((key, value, rest)),
                None => None,
            }
        } else {
            None
        },
        _ => None,
    }
}

/// The members up to the closing brace, in their order, and what stands behind it.
pub open spec fn read_members(t: Seq<char>) -> Option<(Seq<(Seq<char>, Value)>, Seq<char>)>
    decreases t.len(),
{
    match read_member(t) {
        Some((key, value, behind)) => if behind.len() > 0 && behind.len() < t.len() {
            if behind[0] == '}' {
                Some((seq![(key, value)], behind.skip(1)))
            } else if behind[0] == ',' {
                match read_members(behind.skip(1)) {
                    Some((members, rest)) => Some((seq![(key, value)] + members, rest)),
                    None => None,
                }
            } else {
                None
            }
        } else {
            None
        },
        None => None,
    }
}

/// The members of the JSON object that `t` begins with, and what stands behind it.
pub open spec fn read_object(t: Seq<char>) -> Option<(Seq<(Seq<char>, Value)>, Seq<char>)> {
    if t.len() > 0 && t[0] == '{' {
        read_members(t.skip(1))
    } else {
        None
    }
}

/// A character is read back from the way it is written.
proof fn lemma_read_char(c: char, rest: Seq<char>)
    ensures
        escaped_char(c)[0] != '"',
        read_char(escaped_char(c) + rest) == (c, rest),
{
    let t = escaped_char(c) + rest;
    assert(t.skip(escaped_char(c).len() as int) =~= rest);
    assert(t[0] == escaped_char(c)[0]);
    if escaped_char(c).len() > 1 {
        assert(t[1] == escaped_char(c)[1]);
    }
    if escaped_char(c).len() == 6 {
        assert(t[2] == '0' && t[3] == '0');
        assert(t[4] == hex_digit(c as int / 16));
        assert(t[5] == hex_digit(c as int % 16));
        assert(hex_value(t[4]) == c as int / 16);
        assert(hex_value(t[5]) == c as int % 16);
    }
}

proof fn lemma_read_characters(text: Seq<char>, rest: Seq<char>)
    ensures
        read_characters(escaped(text) + (seq!['"'] + rest)) == Some((text, rest)),
    decreases text.len(),
{
    let t = escaped(text) + (seq!['"'] + rest);
    if text.len() == 0 {
        assert(t.skip(1) =~= rest);
        assert(text =~= Seq::<char>::empty());
    } else {
        let behind = escaped(text.drop_first()) + (seq!['"'] + rest);
        assert(t =~= escaped_char(text[0]) + behind);
        lemma_read_char(text[0], behind);
        lemma_read_characters(text.drop_first(), rest);
        assert(seq![text[0]] + text.drop_first() =~= text);
    }
}

/// A string is read back from its JSON text, whatever it holds and whatever follows.
pub proof fn law_read_text(text: Seq<char>, rest: Seq<char>)
    ensures
        read_value(json_text(text) + rest) == Some((Value::Text(text), rest)),
{
    let t = json_text(text) + rest;
    assert(t.skip(1) =~= escaped(text) + (seq!['"'] + rest));
    lemma_read_characters(text, rest);
}

proof fn lemma_leading_digits(digits: Seq<char>, rest: Seq<char>)
    requires
        forall|i: int| 0 <= i < digits.len() ==> '0' <= #[trigger] digits[i] <= '9',
        rest.len() > 0,
        !('0' <= rest[0] <= '9'),
    ensures
        leading_digits(digits + rest) == digits.len(),
    decreases digits.len(),
{
    if digits.len() == 0 {
        assert(digits + rest =~= rest);
    } else {
        assert((digits + rest).skip(1) =~= digits.skip(1) + rest);
        lemma_leading_digits(digits.skip(1), rest);
    }
}

/// A number is read back from its numeral, whatever follows that is no digit.
pub proof fn law_read_number(n: nat, rest: Seq<char>)
    requires
        rest.len() > 0,
        !('0' <= rest[0] <= '9'),
    ensures
        read_value(text::decimal(n) + rest) == Some((Value::Number(n as int), rest)),
{
    let digits = text::decimal(n);
    text::lemma_decimal_digits(n);
    text::law_decimal_value(n);
    lemma_leading_digits(digits, rest);
    assert((digits + rest).take(digits.len() as int) =~= digits);
    assert((digits + rest).skip(digits.len() as int) =~= rest);
}

/// A text without quotation marks, backslashes and control characters is written as it is.
pub proof fn law_plain_text(text: Seq<char>)
    requires
        forall|i: int|
            0 <= i < text.len() ==> #[trigger] text[i] != '"' && text[i] != '\\' && text[i] >= ' ',
    ensures
        json_text(text) == seq!['"'] + text + seq!['"'],
{
    lemma_plain_escaped(text);
}

proof fn lemma_plain_escaped(text: Seq<char>)
    requires
        forall|i: int|
            0 <= i < text.len() ==> #[trigger] text[i] != '"' && text[i] != '\\' && text[i] >= ' ',
    ensures
        escaped(text) == text,
    decreases text.len(),
{
    if text.len() > 0 {
        lemma_plain_escaped(text.drop_first());
        assert(escaped(text) =~= text);
    } else {
        assert(escaped(text) =~= text);
    }
}

/// A member whose key is plain is read back: its key, its value, and what follows.
pub(crate) proof fn lemma_read_member(
    key: Seq<char>,
    value: Value,
    written: Seq<char>,
    rest: Seq<char>,
)
    requires
        forall|i: int|
            0 <= i < key.len() ==> #[trigger] key[i] != '"' && key[i] != '\\' && key[i] >= ' ',
        read_value(written) == Some((value, rest)),
    ensures
        read_member(seq!['"'] + key + seq!['"', ':'] + written) == Some((key, value, rest)),
{
    let t = seq!['"'] + key + seq!['"', ':'] + written;
    law_plain_text(key);
    assert(t =~= json_text(key) + (seq![':'] + written));
    law_read_text(key, seq![':'] + written);
    assert((seq![':'] + written).skip(1) =~= written);
}

/// The last member of an object is read back.
pub(crate) proof fn lemma_read_last_member(
    key: Seq<char>,
    value: Value,
    written: Seq<char>,
    rest: Seq<char>,
)
    requires
        forall|i: int|
            0 <= i < key.len() ==> #[trigger] key[i] != '"' && key[i] != '\\' && key[i] >= ' ',
        read_value(written) == Some((value, seq!['}'] + rest)),
        written.len() > rest.len(),
    ensures
        read_members(seq!['"'] + key + seq!['"', ':'] + written) == Some(
            (seq![(key, value)], rest),
        ),
{
    lemma_read_member(key, value, written, seq!['}'] + rest);
    assert((seq!['}'] + rest).skip(1) =~= rest);
}

/// A member is read back, and the members behind it with it.
pub(crate) proof fn lemma_read_next_member(
    key: Seq<char>,
    value: Value,
    written: Seq<char>,
    behind: Seq<char>,
    members: Seq<(Seq<char>, Value)>,
    rest: Seq<char>,
)
    requires
        forall|i: int|
            0 <= i < key.len() ==> #[trigger] key[i] != '"' && key[i] != '\\' && key[i] >= ' ',
        read_value(written) == Some((value, seq![','] + behind)),
        written.len() > behind.len(),
        read_members(behind) == Some((members, rest)),
    ensures
        read_members(seq!['"'] + key + seq!['"', ':'] + written) == Some(
            (seq![(key, value)] + members, rest),
        ),
{
    lemma_read_member(key, value, written, seq![','] + behind);
    assert((seq![','] + behind).skip(1) =~= behind);
}

/// The objects up to the closing bracket, which ends the text, in their order.
pub open spec fn read_entries(t: Seq<char>) -> Option<Seq<Seq<(Seq<char>, Value)>>>
    decreases t.len(),
{
    match read_object(t) {
        Some((members, behind)) => if behind.len() > 0 && behind.len() < t.len() {
            if behind[0] == ']' && behind.len() == 1 {
                Some(seq![members])
            } else if behind[0] == ',' {
                match read_entries(behind.skip(1)) {
                    Some(entries) => Some(seq![members] + entries),
                    None => None,
                }
            } else {
                None
            }
        } else {
            None
        },
        None => None,
    }
}

/// The objects in the JSON array that `t` is.
pub open spec fn read_list(t: Seq<char>) -> Option<Seq<Seq<(Seq<char>, Value)>>> {
    if t.len() > 0 && t[0] == '[' {
        if t.skip(1) == seq![']'] {
            Some(Seq::empty())
        } else {
            read_entries(t.skip(1))
        }
    } else {
        None
    }
}

} // verus!
