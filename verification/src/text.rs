//! Text as sequences of characters: decimal numerals, joining and replacing.
use vstd::prelude::*;
use vstd::string::*;

verus! {

/// The decimal digit that stands for `d`.
pub open spec fn digit(d: nat) -> char
    recommends
        d < 10,
{
    (48 + d) as char
}

/// The decimal numeral of `n`, without leading zeros.
pub open spec fn decimal(n: nat) -> Seq<char>
    decreases n,
{
    if n < 10 {
        seq![digit(n)]
    } else {
        decimal(n / 10).push(digit(n % 10))
    }
}

/// The characters of each string.
pub open spec fn texts(strings: Seq<String>) -> Seq<Seq<char>> {
    strings.map_values(|s: String| s@)
}

/// The first `n` parts, one after the other, with `separator` between neighbours.
pub open spec fn joined(parts: Seq<Seq<char>>, separator: Seq<char>, n: nat) -> Seq<char>
    decreases n,
{
    if n == 0 {
        Seq::empty()
    } else if n == 1 {
        parts[0]
    } else {
        joined(parts, separator, (n - 1) as nat) + separator + parts[n - 1]
    }
}

/// All parts with `separator` between neighbours.
pub open spec fn join_texts(parts: Seq<Seq<char>>, separator: Seq<char>) -> Seq<char> {
    joined(parts, separator, parts.len())
}

/// `part` stands in `text` at index `k`.
pub open spec fn stands_at(text: Seq<char>, part: Seq<char>, k: int) -> bool {
    &&& 0 <= k
    &&& k + part.len() <= text.len()
    &&& text.subrange(k, k + part.len()) == part
}

/// `part` stands somewhere in `text`.
pub open spec fn occurs(text: Seq<char>, part: Seq<char>) -> bool {
    exists|k: int| stands_at(text, part, k)
}

/// `part` stands in `text` at index `k` and at none before.
pub open spec fn first_stands_at(text: Seq<char>, part: Seq<char>, k: int) -> bool {
    &&& stands_at(text, part, k)
    &&& forall|j: int| 0 <= j < k ==> !stands_at(text, part, j)
}

/// `text` with its first occurrence of `pattern`, if there is one, replaced.
pub open spec fn first_replaced(
    text: Seq<char>,
    pattern: Seq<char>,
    replacement: Seq<char>,
) -> Seq<char> {
    if occurs(text, pattern) {
        let k = choose|k: int| first_stands_at(text, pattern, k);
        text.take(k) + replacement + text.skip(k + pattern.len())
    } else {
        text
    }
}

/// The numeral of one digit.
fn digit_text(d: u64) -> (r: &'static str)
    requires
        d < 10,
    ensures
        r@ == seq![digit(d as nat)],
{
    proof {
        reveal_strlit("0");
        reveal_strlit("1");
        reveal_strlit("2");
        reveal_strlit("3");
        reveal_strlit("4");
        reveal_strlit("5");
        reveal_strlit("6");
        reveal_strlit("7");
        reveal_strlit("8");
        reveal_strlit("9");
    }
    match d {
        0 => "0",
        1 => "1",
        2 => "2",
        3 => "3",
        4 => "4",
        5 => "5",
        6 => "6",
        7 => "7",
        8 => "8",
        _ => "9",
    }
}

/// Writes `n` in decimal.
pub fn decimal_text(n: u64) -> (r: String)
    ensures
        r@ == decimal(n as nat),
        numeral_value(r@) == n,
    decreases n,
{
    proof {
        law_decimal_value(n as nat);
    }
    if n < 10 {
        digit_text(n).to_owned()
    } else {
        let mut out = decimal_text(n / 10);
        out.append(digit_text(n % 10));
        out
    }
}

/// Writes the parts one after the other with `separator` between neighbours.
pub fn join(parts: &Vec<String>, separator: &str) -> (r: String)
    ensures
        r@ == join_texts(texts(parts@), separator@),
{
    let mut out = String::new();
    let mut i: usize = 0;
    while i < parts.len()
        invariant
            i <= parts@.len(),
            out@ == joined(texts(parts@), separator@, i as nat),
        decreases parts@.len() - i,
    {
        if i > 0 {
            out.append(separator);
        }
        out.append(parts[i].as_str());
        i = i + 1;
    }
    out
}

/// The characters of `text`.
fn characters(text: &str) -> (r: Vec<char>)
    ensures
        r@ == text@,
{
    let mut out: Vec<char> = Vec::new();
    for c in it: text.chars()
        invariant
            out@ == it.seq().take(it.index()),
            it.seq() == text@,
    {
        out.push(c);
    }
    out
}

/// Whether `pattern` stands in `text` at index `k`.
fn is_at(text: &Vec<char>, pattern: &Vec<char>, k: usize) -> (r: bool)
    requires
        k <= text@.len(),
    ensures
        r == stands_at(text@, pattern@, k as int),
{
    if pattern.len() > text.len() - k {
        return false;
    }
    let mut j: usize = 0;
    while j < pattern.len()
        invariant
            j <= pattern@.len(),
            k + pattern@.len() <= text.len(),
            text@.subrange(k as int, k + j) == pattern@.take(j as int),
        decreases pattern@.len() - j,
    {
        if text[k + j] != pattern[j] {
            assert(text@.subrange(k as int, k + pattern@.len())[j as int] != pattern@[j as int]);
            return false;
        }
        assert(text@.subrange(k as int, k + j + 1) =~= text@.subrange(k as int, k + j).push(
            text@[k + j],
        ));
        assert(pattern@.take(j + 1) =~= pattern@.take(j as int).push(pattern@[j as int]));
        j = j + 1;
    }
    assert(pattern@.take(j as int) =~= pattern@);
    true
}

/// `text` with its first occurrence of `pattern`, if there is one, replaced.
pub fn replace_first(text: &str, pattern: &str, replacement: &str) -> (r: String)
    ensures
        r@ == first_replaced(text@, pattern@, replacement@),
{
    let chars = characters(text);
    let wanted = characters(pattern);
    if wanted.len() > chars.len() {
        return text.to_owned();
    }
    let last = chars.len() - wanted.len();
    let mut k: usize = 0;
    let mut found = is_at(&chars, &wanted, 0);
    while !found && k < last
        invariant
            chars@ == text@,
            wanted@ == pattern@,
            last + wanted@.len() == chars@.len(),
            k <= last,
            found == stands_at(text@, pattern@, k as int),
            forall|j: int| 0 <= j < k ==> !stands_at(text@, pattern@, j),
        decreases last - k,
    {
        k = k + 1;
        found = is_at(&chars, &wanted, k);
    }
    if !found {
        return text.to_owned();
    }
    proof {
        law_replace_first(text@, pattern@, replacement@, k as int);
    }
    let mut out = text.substring_char(0, k).to_owned();
    out.append(replacement);
    out.append(text.substring_char(k + wanted.len(), chars.len()));
    out
}

/// A numeral is made of decimal digits, and there is at least one.
pub proof fn lemma_decimal_digits(n: nat)
    ensures
        decimal(n).len() > 0,
        forall|i: int| 0 <= i < decimal(n).len() ==> '0' <= #[trigger] decimal(n)[i] <= '9',
    decreases n,
{
    if n >= 10 {
        lemma_decimal_digits(n / 10);
    }
}

/// Different numbers have different numerals.
pub proof fn law_decimal_injective(a: nat, b: nat)
    requires
        decimal(a) == decimal(b),
    ensures
        a == b,
    decreases a,
{
    lemma_decimal_digits(a / 10);
    lemma_decimal_digits(b / 10);
    assert(decimal(a).last() == digit(a % 10));
    assert(decimal(b).last() == digit(b % 10));
    if a >= 10 && b >= 10 {
        assert(decimal(a).drop_last() =~= decimal(a / 10));
        assert(decimal(b).drop_last() =~= decimal(b / 10));
        law_decimal_injective(a / 10, b / 10);
    }
}

/// Two numerals that begin two equal texts, each with something behind it that does not
/// begin with a digit, are the same, and so is what follows them.
pub proof fn law_decimal_prefix_code(a: nat, b: nat, x: Seq<char>, y: Seq<char>)
    requires
        decimal(a) + x == decimal(b) + y,
        x.len() > 0,
        y.len() > 0,
        !('0' <= x[0] <= '9'),
        !('0' <= y[0] <= '9'),
    ensures
        a == b,
        x == y,
{
    let p = decimal(a);
    let q = decimal(b);
    let l = p + x;
    let r = q + y;
    lemma_decimal_digits(a);
    lemma_decimal_digits(b);
    assert(l[p.len() as int] == x[0]);
    assert(r[q.len() as int] == y[0]);
    if p.len() < q.len() {
        assert(r[p.len() as int] == q[p.len() as int]);
        assert(false);
    }
    if q.len() < p.len() {
        assert(l[q.len() as int] == p[q.len() as int]);
        assert(false);
    }
    assert(l.take(p.len() as int) =~= p);
    assert(r.take(q.len() as int) =~= q);
    assert(l.skip(p.len() as int) =~= x);
    assert(r.skip(q.len() as int) =~= y);
    law_decimal_injective(a, b);
}

/// What stands in the middle of a text occurs in it.
pub proof fn lemma_middle_occurs(before: Seq<char>, part: Seq<char>, after: Seq<char>)
    ensures
        occurs(before + part + after, part),
{
    let text = before + part + after;
    let k = before.len() as int;
    assert(text.subrange(k, k + part.len()) =~= part);
    assert(stands_at(text, part, k));
}

/// What occurs in a part of a text occurs in the text.
pub proof fn lemma_occurs_within(
    before: Seq<char>,
    middle: Seq<char>,
    after: Seq<char>,
    part: Seq<char>,
)
    requires
        occurs(middle, part),
    ensures
        occurs(before + middle + after, part),
{
    let k = choose|k: int| stands_at(middle, part, k);
    let text = before + middle + after;
    assert(text.subrange(before.len() + k, before.len() + k + part.len()) =~= middle.subrange(
        k,
        k + part.len(),
    ));
    assert(stands_at(text, part, before.len() + k));
}

/// What occurs in something that occurs in a text occurs in the text.
pub proof fn lemma_occurs_transitive(text: Seq<char>, middle: Seq<char>, part: Seq<char>)
    requires
        occurs(text, middle),
        occurs(middle, part),
    ensures
        occurs(text, part),
{
    let k = choose|k: int| stands_at(text, middle, k);
    let before = text.take(k);
    let after = text.skip(k + middle.len());
    assert(before + middle + after =~= text);
    lemma_occurs_within(before, middle, after, part);
}

/// Each of the first `n` parts occurs in their join.
pub proof fn lemma_joined_holds_parts(
    parts: Seq<Seq<char>>,
    separator: Seq<char>,
    n: nat,
    i: int,
)
    requires
        0 <= i < n <= parts.len(),
    ensures
        occurs(joined(parts, separator, n), parts[i]),
    decreases n,
{
    let none = Seq::<char>::empty();
    if n == 1 {
        lemma_middle_occurs(none, parts[0], none);
        assert(none + parts[0] + none =~= parts[0]);
    } else {
        let head = joined(parts, separator, (n - 1) as nat);
        if i == n - 1 {
            lemma_middle_occurs(head + separator, parts[i], none);
            assert(head + separator + parts[i] + none =~= head + separator + parts[i]);
        } else {
            lemma_joined_holds_parts(parts, separator, (n - 1) as nat, i);
            lemma_occurs_within(none, head, separator + parts[n - 1], parts[i]);
            assert(none + head + (separator + parts[n - 1]) =~= head + separator + parts[n - 1]);
        }
    }
}

/// Replacing the first occurrence puts the replacement where `pattern` first stood and
/// keeps everything before and behind it.
pub proof fn law_replace_first(
    text: Seq<char>,
    pattern: Seq<char>,
    replacement: Seq<char>,
    at: int,
)
    requires
        first_stands_at(text, pattern, at),
    ensures
        first_replaced(text, pattern, replacement) == text.take(at) + replacement + text.skip(
            at + pattern.len(),
        ),
{
    assert(stands_at(text, pattern, at));
    let k = choose|k: int| first_stands_at(text, pattern, k);
    assert(first_stands_at(text, pattern, k));
    assert(k == at);
}

/// The number that a row of decimal digits stands for.
pub open spec fn numeral_value(numeral: Seq<char>) -> int
    decreases numeral.len(),
{
    if numeral.len() == 0 {
        0
    } else {
        10 * numeral_value(numeral.drop_last()) + (numeral.last() as int - '0' as int)
    }
}

/// A numeral, read as decimal, gives its number back; and it begins with a zero only for
/// zero itself, whose numeral is that one digit.
pub proof fn law_decimal_value(n: nat)
    ensures
        numeral_value(decimal(n)) == n,
        decimal(n)[0] == '0' ==> n == 0,
        n < 10 ==> decimal(n).len() == 1,
    decreases n,
{
    lemma_decimal_digits(n);
    reveal_with_fuel(numeral_value, 2);
    if n < 10 {
        assert(decimal(n).drop_last() =~= Seq::<char>::empty());
    } else {
        law_decimal_value(n / 10);
        lemma_decimal_digits(n / 10);
        assert(decimal(n).drop_last() =~= decimal(n / 10));
        assert(decimal(n)[0] == decimal(n / 10)[0]);
    }
}

/// The texts of a row of strings are as many as the strings, and each is the text of the
/// string at its place.
pub proof fn law_texts_in_order(strings: Seq<String>)
    ensures
        texts(strings).len() == strings.len(),
        forall|i: int| 0 <= i < strings.len() ==> texts(strings)[i] == (#[trigger] strings[i])@,
{
}

/// The first parts of a join do not depend on what follows them.
proof fn lemma_joined_front(a: Seq<Seq<char>>, b: Seq<Seq<char>>, separator: Seq<char>, n: nat)
    requires
        n <= a.len(),
        n <= b.len(),
        forall|i: int| 0 <= i < n ==> a[i] == b[i],
    ensures
        joined(a, separator, n) == joined(b, separator, n),
    decreases n,
{
    if n > 1 {
        lemma_joined_front(a, b, separator, (n - 1) as nat);
    }
}

/// Joining nothing gives nothing, joining one part gives that part, and joining one row
/// behind another puts the separator once between the two joins.
pub proof fn law_join_in_pieces(a: Seq<Seq<char>>, b: Seq<Seq<char>>, separator: Seq<char>)
    ensures
        a.len() == 0 ==> join_texts(a, separator).len() == 0,
        a.len() == 1 ==> join_texts(a, separator) == a[0],
        a.len() > 0 && b.len() > 0 ==> join_texts(a + b, separator) == join_texts(a, separator)
            + separator + join_texts(b, separator),
    decreases b.len(),
{
    reveal_with_fuel(joined, 2);
    if a.len() > 0 && b.len() > 0 {
        let n = b.len();
        let all = a + b;
        let front = b.drop_last();
        lemma_joined_front(all, a + front, separator, (all.len() - 1) as nat);
        assert(all[all.len() - 1] == b[n - 1]);
        if n == 1 {
            assert(a + front =~= a);
        } else {
            law_join_in_pieces(a, front, separator);
            lemma_joined_front(b, front, separator, (n - 1) as nat);
            assert(join_texts(b, separator) == join_texts(front, separator) + separator + b[n - 1]);
            assert(join_texts(all, separator) =~= join_texts(a, separator) + separator
                + join_texts(b, separator));
        }
    }
}

/// A part stands at an index if and only if every one of its characters stands there in
/// turn.
pub proof fn law_stands_at_by_characters(text: Seq<char>, part: Seq<char>, k: int)
    ensures
        stands_at(text, part, k) <==> {
            &&& 0 <= k
            &&& k + part.len() <= text.len()
            &&& forall|j: int| 0 <= j < part.len() ==> text[k + j] == #[trigger] part[j]
        },
{
    if 0 <= k && k + part.len() <= text.len() {
        let middle = text.subrange(k, k + part.len());
        assert(forall|j: int| 0 <= j < part.len() ==> middle[j] == #[trigger] text[k + j]);
        if stands_at(text, part, k) {
            assert forall|j: int| 0 <= j < part.len() implies text[k + j] == #[trigger] part[j] by {
                assert(middle[j] == text[k + j]);
            }
        } else if forall|j: int| 0 <= j < part.len() ==> text[k + j] == #[trigger] part[j] {
            assert(middle =~= part);
        }
    }
}

/// A part occurs in a text if and only if the text is the part with something before it and
/// something behind it.
pub proof fn law_occurs_splits(text: Seq<char>, part: Seq<char>)
    ensures
        occurs(text, part) <==> exists|before: Seq<char>, after: Seq<char>|
            text == #[trigger] (before + part + after),
{
    if occurs(text, part) {
        let k = choose|k: int| stands_at(text, part, k);
        let before = text.take(k);
        let after = text.skip(k + part.len());
        assert(text =~= before + part + after);
    }
    if exists|before: Seq<char>, after: Seq<char>| text == #[trigger] (before + part + after) {
        let (before, after) = choose|before: Seq<char>, after: Seq<char>|
            text == #[trigger] (before + part + after);
        lemma_middle_occurs(before, part, after);
    }
}

/// Where a pattern has something before it in which, even with all but the pattern's last
/// character, it does not occur yet, exactly that pattern is replaced: what stands before
/// and behind it is kept.
pub proof fn law_replaced_between(
    before: Seq<char>,
    pattern: Seq<char>,
    after: Seq<char>,
    replacement: Seq<char>,
)
    requires
        pattern.len() > 0,
        !occurs((before + pattern).drop_last(), pattern),
    ensures
        first_replaced(before + pattern + after, pattern, replacement) == before + replacement
            + after,
{
    let text = before + pattern + after;
    let at = before.len() as int;
    assert(text.subrange(at, at + pattern.len()) =~= pattern);
    assert forall|j: int| 0 <= j < at implies !stands_at(text, pattern, j) by {
        if stands_at(text, pattern, j) {
            let front = (before + pattern).drop_last();
            assert(front.subrange(j, j + pattern.len()) =~= text.subrange(j, j + pattern.len()));
            assert(stands_at(front, pattern, j));
        }
    }
    law_replace_first(text, pattern, replacement, at);
    assert(text.take(at) =~= before);
    assert(text.skip(at + pattern.len()) =~= after);
}

/// A text in which the pattern does not occur is left as it is.
pub proof fn law_replace_absent(text: Seq<char>, pattern: Seq<char>, replacement: Seq<char>)
    requires
        !occurs(text, pattern),
    ensures
        first_replaced(text, pattern, replacement) == text,
{
}

} // verus!
