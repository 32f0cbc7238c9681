//! Text as a mathematical sequence of characters: the operations on text that the contracts of
//! this crate speak of, and the facts about them that the proofs use.

use vstd::prelude::*;

verus! {

/// The characters with the Unicode `White_Space` property.
pub open spec fn is_white_space(c: char) -> bool {
    ||| '\u{9}' <= c <= '\u{d}'
    ||| c == ' '
    ||| c == '\u{85}'
    ||| c == '\u{a0}'
    ||| c == '\u{1680}'
    ||| '\u{2000}' <= c <= '\u{200a}'
    ||| c == '\u{2028}'
    ||| c == '\u{2029}'
    ||| c == '\u{202f}'
    ||| c == '\u{205f}'
    ||| c == '\u{3000}'
}

/// The ASCII decimal digits.
pub open spec fn is_digit(c: char) -> bool {
    '0' <= c <= '9'
}

/// An ASCII capital letter becomes its small letter; every other character stays.
pub open spec fn lower_char(c: char) -> char {
    if 'A' <= c <= 'Z' {
        ((c as u32) + 32) as char
    } else {
        c
    }
}

/// `s` with its ASCII letters in lower case.
pub open spec fn ascii_lower(s: Seq<char>) -> Seq<char> {
    s.map_values(|c: char| lower_char(c))
}

/// `s` without its leading white space.
pub open spec fn trim_start(s: Seq<char>) -> Seq<char>
    decreases s.len(),
{
    if s.len() > 0 && is_white_space(s[0]) {
        trim_start(s.skip(1))
    } else {
        s
    }
}

/// `s` without its trailing white space.
pub open spec fn trim_end(s: Seq<char>) -> Seq<char>
    decreases s.len(),
{
    if s.len() > 0 && is_white_space(s.last()) {
        trim_end(s.drop_last())
    } else {
        s
    }
}

/// `s` without white space at either end.
pub open spec fn trim(s: Seq<char>) -> Seq<char> {
    trim_end(trim_start(s))
}

/// Nothing but white space.
pub open spec fn is_blank(s: Seq<char>) -> bool {
    trim(s).len() == 0
}

/// `prefix` stands at the start of `s`.
pub open spec fn starts_with(s: Seq<char>, prefix: Seq<char>) -> bool {
    &&& prefix.len() <= s.len()
    &&& s.take(prefix.len() as int) == prefix
}

/// What follows `prefix` at the start of `s`, if it stands there.
pub open spec fn strip_prefix(s: Seq<char>, prefix: Seq<char>) -> Option<Seq<char>> {
    if starts_with(s, prefix) {
        Some(s.skip(prefix.len() as int))
    } else {
        None
    }
}

/// `pattern` stands in `s` at index `i`.
pub open spec fn occurs_at(s: Seq<char>, pattern: Seq<char>, i: int) -> bool {
    &&& 0 <= i
    &&& i + pattern.len() <= s.len()
    &&& s.subrange(i, i + pattern.len()) == pattern
}

/// `pattern` stands somewhere in `s`.
pub open spec fn contains(s: Seq<char>, pattern: Seq<char>) -> bool {
    exists|i: int| #[trigger] occurs_at(s, pattern, i)
}

/// The first index of `s`, from `from` on, at which `pattern` stands.
pub open spec fn find_from(s: Seq<char>, pattern: Seq<char>, from: int) -> Option<int>
    decreases s.len() + 1 - from,
{
    if from < 0 || from + pattern.len() > s.len() {
        None
    } else if occurs_at(s, pattern, from) {
        Some(from)
    } else {
        find_from(s, pattern, from + 1)
    }
}

/// The first index of `s` at which `pattern` stands.
pub open spec fn find(s: Seq<char>, pattern: Seq<char>) -> Option<int> {
    find_from(s, pattern, 0)
}

/// What stands before and after the first `pattern` in `s`.
pub open spec fn split_once(s: Seq<char>, pattern: Seq<char>) -> Option<(Seq<char>, Seq<char>)> {
    match find(s, pattern) {
        Some(i) => Some((s.take(i), s.skip(i + pattern.len()))),
        None => None,
    }
}

/// What stands before the first `pattern` in `s`, or all of `s` where there is none.
pub open spec fn before(s: Seq<char>, pattern: Seq<char>) -> Seq<char> {
    match find(s, pattern) {
        Some(i) => s.take(i),
        None => s,
    }
}

/// What stands after the last `c` in `s`.
pub open spec fn after_last(s: Seq<char>, c: char) -> Option<Seq<char>>
    decreases s.len(),
{
    if s.len() == 0 {
        None
    } else if s.last() == c {
        Some(Seq::empty())
    } else {
        match after_last(s.drop_last(), c) {
            Some(rest) => Some(rest.push(s.last())),
            None => None,
        }
    }
}

/// The pieces of `s` between the characters `c`.
pub open spec fn split(s: Seq<char>, c: char) -> Seq<Seq<char>>
    decreases s.len(),
{
    match find(s, seq![c]) {
        Some(i) => if 0 <= i < s.len() {
            seq![s.take(i)] + split(s.skip(i + 1), c)
        } else {
            seq![s]
        },
        None => seq![s],
    }
}

/// `s` without one carriage return at its end.
pub open spec fn strip_carriage_return(s: Seq<char>) -> Seq<char> {
    if s.len() > 0 && s.last() == '\r' {
        s.drop_last()
    } else {
        s
    }
}

/// The lines of `s`: each ends at a line feed, or a carriage return and a line feed, which do not
/// belong to it; after the last line feed a line stands only if it is not empty.
pub open spec fn lines(s: Seq<char>) -> Seq<Seq<char>>
    decreases s.len(),
{
    if s.len() == 0 {
        Seq::empty()
    } else {
        match find(s, seq!['\n']) {
            Some(i) => if 0 <= i < s.len() {
                seq![strip_carriage_return(s.take(i))] + lines(s.skip(i + 1))
            } else {
                seq![s]
            },
            None => seq![s],
        }
    }
}

/// `s` with every `pattern` in it, found from the left and without overlap, replaced by `by`.
pub open spec fn replace(s: Seq<char>, pattern: Seq<char>, by: Seq<char>) -> Seq<char>
    decreases s.len(),
{
    match find(s, pattern) {
        Some(i) => if pattern.len() > 0 && 0 <= i && i + pattern.len() <= s.len() {
            s.take(i) + by + replace(s.skip(i + pattern.len()), pattern, by)
        } else {
            s
        },
        None => s,
    }
}

/// `s` with each character `c` in it replaced by `by`.
pub open spec fn substitute(s: Seq<char>, c: char, by: Seq<char>) -> Seq<char>
    decreases s.len(),
{
    if s.len() == 0 {
        Seq::empty()
    } else {
        (if s[0] == c {
            by
        } else {
            seq![s[0]]
        }) + substitute(s.skip(1), c, by)
    }
}

/// The texts of `parts` in order, with `separator` between each two.
pub open spec fn join(parts: Seq<Seq<char>>, separator: Seq<char>) -> Seq<char>
    decreases parts.len(),
{
    if parts.len() == 0 {
        Seq::empty()
    } else if parts.len() == 1 {
        parts[0]
    } else {
        join(parts.drop_last(), separator) + separator + parts.last()
    }
}

/// The number a digit stands for.
pub open spec fn digit_value(c: char) -> nat {
    (c as u32 - '0' as u32) as nat
}

/// The digit that stands for a number below ten.
pub open spec fn digit_char(d: nat) -> char {
    (('0' as u32) + d) as char
}

/// Nothing but digits.
pub open spec fn all_digits(s: Seq<char>) -> bool {
    forall|i: int| 0 <= i < s.len() ==> is_digit(#[trigger] s[i])
}

/// The number that a row of digits stands for in base ten.
pub open spec fn digits_value(s: Seq<char>) -> nat
    decreases s.len(),
{
    if s.len() == 0 {
        0
    } else {
        digits_value(s.drop_last()) * 10 + digit_value(s.last())
    }
}

/// The number, at most `max`, that `s` writes in base ten: one digit or more, after one `+` at
/// most.
pub open spec fn parse_unsigned(s: Seq<char>, max: nat) -> Option<nat> {
    let body = if s.len() > 0 && s[0] == '+' {
        s.skip(1)
    } else {
        s
    };
    if body.len() > 0 && all_digits(body) && digits_value(body) <= max {
        Some(digits_value(body))
    } else {
        None
    }
}

/// `n` in base ten, without leading zeros.
pub open spec fn decimal(n: nat) -> Seq<char>
    decreases n,
{
    if n < 10 {
        seq![digit_char(n)]
    } else {
        decimal(n / 10).push(digit_char(n % 10))
    }
}

/// The views of a list of strings.
pub open spec fn views(list: Seq<String>) -> Seq<Seq<char>> {
    list.map_values(|s: String| s@)
}

/// The view of a string that may be missing.
pub open spec fn view_of(value: Option<String>) -> Option<Seq<char>> {
    match value {
        Some(text) => Some(text@),
        None => None,
    }
}

/// The first index found is one where the pattern stands, and none before it is.
pub proof fn lemma_find_from(s: Seq<char>, pattern: Seq<char>, from: int)
    requires
        0 <= from,
    ensures
        match find_from(s, pattern, from) {
            Some(i) => {
                &&& from <= i
                &&& occurs_at(s, pattern, i)
                &&& forall|j: int| from <= j < i ==> !#[trigger] occurs_at(s, pattern, j)
            },
            None => forall|j: int| from <= j ==> !#[trigger] occurs_at(s, pattern, j),
        },
    decreases s.len() + 1 - from,
{
    if from + pattern.len() <= s.len() && !occurs_at(s, pattern, from) {
        lemma_find_from(s, pattern, from + 1);
    }
}

/// An index where the pattern stands and before which it stands nowhere is the one found.
pub proof fn lemma_find_is(s: Seq<char>, pattern: Seq<char>, from: int, i: int)
    requires
        0 <= from <= i,
        occurs_at(s, pattern, i),
        forall|j: int| from <= j < i ==> !#[trigger] occurs_at(s, pattern, j),
    ensures
        find_from(s, pattern, from) == Some(i),
{
    lemma_find_from(s, pattern, from);
    match find_from(s, pattern, from) {
        Some(k) => {
            if k < i {
                assert(!occurs_at(s, pattern, k));
            }
            if i < k {
                assert(!occurs_at(s, pattern, i));
            }
        },
        None => {
            assert(!occurs_at(s, pattern, i));
        },
    }
}

/// A pattern that stands nowhere is not found.
pub proof fn lemma_find_none(s: Seq<char>, pattern: Seq<char>, from: int)
    requires
        0 <= from,
        forall|j: int| from <= j ==> !#[trigger] occurs_at(s, pattern, j),
    ensures
        find_from(s, pattern, from) is None,
{
    lemma_find_from(s, pattern, from);
}

/// A pattern is found exactly where it is contained.
pub proof fn lemma_find_contains(s: Seq<char>, pattern: Seq<char>)
    ensures
        find(s, pattern) is Some <==> contains(s, pattern),
{
    lemma_find_from(s, pattern, 0);
    if let Some(i) = find(s, pattern) {
        assert(occurs_at(s, pattern, i));
    }
}

/// A single character stands where it is.
pub proof fn lemma_occurs_char(s: Seq<char>, c: char, i: int)
    ensures
        occurs_at(s, seq![c], i) <==> 0 <= i < s.len() && s[i] == c,
{
    if 0 <= i < s.len() {
        assert(s.subrange(i, i + 1) =~= seq![s[i]]);
        if occurs_at(s, seq![c], i) {
            assert(s.subrange(i, i + 1)[0] == seq![c][0]);
        }
    }
}

/// Trimming from the end leaves a prefix that does not end in white space.
pub proof fn lemma_trim_end(s: Seq<char>)
    ensures
        trim_end(s).len() <= s.len(),
        trim_end(s) == s.take(trim_end(s).len() as int),
        trim_end(s).len() > 0 ==> !is_white_space(trim_end(s).last()),
        forall|i: int| trim_end(s).len() <= i < s.len() ==> is_white_space(#[trigger] s[i]),
    decreases s.len(),
{
    if s.len() > 0 && is_white_space(s.last()) {
        let shorter = s.drop_last();
        lemma_trim_end(shorter);
        assert(shorter.take(trim_end(s).len() as int) =~= s.take(trim_end(s).len() as int));
        assert forall|i: int| trim_end(s).len() <= i < s.len() implies is_white_space(
            #[trigger] s[i],
        ) by {
            if i < shorter.len() {
                assert(shorter[i] == s[i]);
            }
        }
    } else {
        assert(s.take(s.len() as int) =~= s);
    }
}

/// Trimming from the start leaves a suffix that does not start with white space.
pub proof fn lemma_trim_start(s: Seq<char>)
    ensures
        trim_start(s).len() <= s.len(),
        trim_start(s) == s.skip(s.len() - trim_start(s).len()),
        trim_start(s).len() > 0 ==> !is_white_space(trim_start(s)[0]),
        forall|i: int| 0 <= i < s.len() - trim_start(s).len() ==> is_white_space(#[trigger] s[i]),
    decreases s.len(),
{
    if s.len() > 0 && is_white_space(s[0]) {
        let rest = s.skip(1);
        lemma_trim_start(rest);
        let n = trim_start(s).len();
        assert(rest.skip(rest.len() - n) =~= s.skip(s.len() - n));
        assert forall|i: int| 0 <= i < s.len() - n implies is_white_space(#[trigger] s[i]) by {
            if i > 0 {
                assert(rest[i - 1] == s[i]);
            }
        }
    } else {
        assert(s.skip(0) =~= s);
    }
}

/// A prefix beyond which all is white space, and which does not end in white space, is what
/// trimming from the end leaves.
pub proof fn lemma_trim_end_is(s: Seq<char>, n: int)
    requires
        0 <= n <= s.len(),
        n > 0 ==> !is_white_space(s[n - 1]),
        forall|i: int| n <= i < s.len() ==> is_white_space(#[trigger] s[i]),
    ensures
        trim_end(s) == s.take(n),
    decreases s.len(),
{
    if n < s.len() {
        assert(is_white_space(s[s.len() - 1]));
        let shorter = s.drop_last();
        lemma_trim_end_is(shorter, n);
        assert(shorter.take(n) =~= s.take(n));
    } else {
        assert(s.take(n) =~= s);
    }
}

/// A suffix before which all is white space, and which does not start with white space, is what
/// trimming from the start leaves.
pub proof fn lemma_trim_start_is(s: Seq<char>, n: int)
    requires
        0 <= n <= s.len(),
        n < s.len() ==> !is_white_space(s[n]),
        forall|i: int| 0 <= i < n ==> is_white_space(#[trigger] s[i]),
    ensures
        trim_start(s) == s.skip(n),
    decreases n,
{
    if n > 0 {
        assert(is_white_space(s[0]));
        let rest = s.skip(1);
        assert forall|i: int| 0 <= i < n - 1 implies is_white_space(#[trigger] rest[i]) by {
            assert(rest[i] == s[i + 1]);
        }
        lemma_trim_start_is(rest, n - 1);
        assert(rest.skip(n - 1) =~= s.skip(n));
    } else {
        assert(s.skip(0) =~= s);
    }
}

/// Trimmed text starts and ends, if it is not empty, with something other than white space.
pub proof fn lemma_trim_ends(s: Seq<char>)
    ensures
        trim(s).len() > 0 ==> !is_white_space(trim(s)[0]) && !is_white_space(trim(s).last()),
{
    lemma_trim_start(s);
    lemma_trim_end(trim_start(s));
}

/// Text that neither starts nor ends with white space is left as it is.
pub proof fn lemma_trim_fixed(s: Seq<char>)
    requires
        s.len() > 0 ==> !is_white_space(s[0]) && !is_white_space(s.last()),
    ensures
        trim(s) == s,
{
}

/// A row of digits grows by a digit at its end as base ten does.
pub proof fn lemma_digits_push(s: Seq<char>, c: char)
    ensures
        digits_value(s.push(c)) == digits_value(s) * 10 + digit_value(c),
{
    assert(s.push(c).drop_last() =~= s);
}

/// A longer row of digits stands for no smaller a number.
pub proof fn lemma_digits_grow(s: Seq<char>, n: int)
    requires
        0 <= n <= s.len(),
    ensures
        digits_value(s.take(n)) <= digits_value(s),
    decreases s.len() - n,
{
    if n < s.len() {
        lemma_digits_grow(s, n + 1);
        assert(s.take(n + 1).drop_last() =~= s.take(n));
    } else {
        assert(s.take(n) =~= s);
    }
}

/// A number below ten, written as a digit, reads back.
pub proof fn lemma_digit(d: nat)
    requires
        d < 10,
    ensures
        is_digit(digit_char(d)),
        digit_value(digit_char(d)) == d,
{
}

/// `decimal` writes digits only, at least one, and they stand for the number.
pub proof fn lemma_decimal(n: nat)
    ensures
        decimal(n).len() > 0,
        all_digits(decimal(n)),
        digits_value(decimal(n)) == n,
    decreases n,
{
    reveal_with_fuel(digits_value, 2);
    if n < 10 {
        lemma_digit(n);
        assert(seq![digit_char(n)].drop_last() =~= Seq::<char>::empty());
    } else {
        lemma_decimal(n / 10);
        lemma_digit(n % 10);
        lemma_digits_push(decimal(n / 10), digit_char(n % 10));
    }
}

/// What `decimal` writes, `parse_unsigned` reads back.
pub proof fn lemma_decimal_parses(n: nat, max: nat)
    requires
        n <= max,
    ensures
        parse_unsigned(decimal(n), max) == Some(n),
{
    lemma_decimal(n);
    assert(is_digit(decimal(n)[0]));
}

/// Different numbers are written differently.
pub proof fn lemma_decimal_differs(m: nat, n: nat)
    ensures
        decimal(m) == decimal(n) ==> m == n,
{
    lemma_decimal(m);
    lemma_decimal(n);
}

/// Text that holds no capital letter stays as it is in lower case.
pub proof fn lemma_lower_fixed(s: Seq<char>)
    requires
        forall|i: int| 0 <= i < s.len() ==> !('A' <= #[trigger] s[i] <= 'Z'),
    ensures
        ascii_lower(s) == s,
{
    assert(ascii_lower(s) =~= s);
}

/// What is in lower case stays as it is.
pub proof fn lemma_lower_twice(s: Seq<char>)
    ensures
        ascii_lower(ascii_lower(s)) == ascii_lower(s),
{
    assert(ascii_lower(ascii_lower(s)) =~= ascii_lower(s));
}

/// A text with white space around it is trimmed to the text, where that neither starts nor ends
/// with any.
pub proof fn lemma_trim_around(before: Seq<char>, s: Seq<char>, after: Seq<char>)
    requires
        forall|i: int| 0 <= i < before.len() ==> is_white_space(#[trigger] before[i]),
        forall|i: int| 0 <= i < after.len() ==> is_white_space(#[trigger] after[i]),
        s.len() > 0,
        !is_white_space(s[0]),
        !is_white_space(s.last()),
    ensures
        trim(before + s + after) == s,
{
    let all = before + s + after;
    let n = before.len() as int;
    assert forall|i: int| 0 <= i < n implies is_white_space(#[trigger] all[i]) by {
        assert(all[i] == before[i]);
    }
    assert(all[n] == s[0]);
    lemma_trim_start_is(all, n);
    let rest = all.skip(n);
    assert(rest =~= s + after);
    let m = s.len() as int;
    assert(rest[m - 1] == s.last());
    assert forall|i: int| m <= i < rest.len() implies is_white_space(#[trigger] rest[i]) by {
        assert(rest[i] == after[i - m]);
    }
    lemma_trim_end_is(rest, m);
    assert(rest.take(m) =~= s);
}

/// What stands before and after a character that the first part does not hold is what the text is
/// split into there.
pub proof fn lemma_split_once_char(left: Seq<char>, c: char, right: Seq<char>)
    requires
        !left.contains(c),
    ensures
        split_once(left + seq![c] + right, seq![c]) == Some((left, right)),
{
    let s = left + seq![c] + right;
    let n = left.len() as int;
    assert(s[n] == c);
    lemma_occurs_char(s, c, n);
    assert forall|j: int| 0 <= j < n implies !#[trigger] occurs_at(s, seq![c], j) by {
        lemma_occurs_char(s, c, j);
        assert(s[j] == left[j]);
        assert(left.contains(left[j]));
    }
    lemma_find_is(s, seq![c], 0, n);
    assert(s.take(n) =~= left);
    assert(s.skip(n + 1) =~= right);
}

/// A text without a character is not split there, and stands whole before it.
pub proof fn lemma_without_char(s: Seq<char>, c: char)
    requires
        !s.contains(c),
    ensures
        split_once(s, seq![c]) is None,
        before(s, seq![c]) == s,
{
    assert forall|j: int| 0 <= j implies !#[trigger] occurs_at(s, seq![c], j) by {
        lemma_occurs_char(s, c, j);
    }
    lemma_find_none(s, seq![c], 0);
}

/// Joining one more part adds the separator, if there was a part before, and the part.
pub proof fn lemma_join_push(parts: Seq<Seq<char>>, part: Seq<char>, separator: Seq<char>)
    ensures
        join(parts.push(part), separator) == if parts.len() == 0 {
            part
        } else {
            join(parts, separator) + separator + part
        },
{
    assert(parts.push(part).drop_last() =~= parts);
}

/// Joined parts start with the first one.
pub proof fn lemma_join_first(parts: Seq<Seq<char>>, separator: Seq<char>)
    requires
        parts.len() > 1,
    ensures
        join(parts, separator) == parts[0] + separator + join(parts.skip(1), separator),
    decreases parts.len(),
{
    let rest = parts.skip(1);
    if parts.len() == 2 {
        reveal_with_fuel(join, 2);
        assert(parts.drop_last()[0] == parts[0]);
        assert(rest[0] == parts.last());
    } else {
        lemma_join_first(parts.drop_last(), separator);
        assert(parts.drop_last().skip(1) =~= rest.drop_last());
        assert(rest.last() == parts.last());
        assert(join(parts, separator) =~= parts[0] + separator + join(rest, separator));
    }
}

/// To replace a pattern of one character is to replace that character wherever it stands.
pub proof fn lemma_replace_char(s: Seq<char>, c: char, by: Seq<char>)
    ensures
        replace(s, seq![c], by) == substitute(s, c, by),
    decreases s.len(),
{
    let p = seq![c];
    lemma_find_from(s, p, 0);
    if s.len() == 0 {
        assert forall|j: int| 0 <= j implies !#[trigger] occurs_at(s, p, j) by {
            lemma_occurs_char(s, c, j);
        }
        lemma_find_none(s, p, 0);
        assert(s =~= Seq::empty());
    } else {
        let rest = s.skip(1);
        lemma_replace_char(rest, c, by);
        lemma_occurs_char(s, c, 0);
        if s[0] == c {
            lemma_find_is(s, p, 0, 0);
            assert(s.take(0) + by + replace(rest, p, by) =~= by + replace(rest, p, by));
        } else {
            lemma_find_from(rest, p, 0);
            match find(rest, p) {
                Some(j) => {
                    lemma_occurs_char(rest, c, j);
                    lemma_occurs_char(s, c, j + 1);
                    assert forall|k: int| 0 <= k < j + 1 implies !#[trigger] occurs_at(s, p, k) by {
                        lemma_occurs_char(s, c, k);
                        if k > 0 {
                            lemma_occurs_char(rest, c, k - 1);
                            assert(!occurs_at(rest, p, k - 1));
                        }
                    }
                    lemma_find_is(s, p, 0, j + 1);
                    assert(s.skip(j + 2) =~= rest.skip(j + 1));
                    assert(s.take(j + 1) =~= seq![s[0]] + rest.take(j));
                    assert(s.take(j + 1) + by + replace(s.skip(j + 2), p, by) =~= seq![s[0]] + (
                    rest.take(j) + by + replace(rest.skip(j + 1), p, by)));
                },
                None => {
                    assert forall|k: int| 0 <= k implies !#[trigger] occurs_at(s, p, k) by {
                        lemma_occurs_char(s, c, k);
                        if k > 0 {
                            lemma_occurs_char(rest, c, k - 1);
                            assert(!occurs_at(rest, p, k - 1));
                        }
                    }
                    lemma_find_none(s, p, 0);
                    assert(s =~= seq![s[0]] + rest);
                },
            }
        }
    }
}

/// What stands before a separator that it does not hold is the first piece, and the others are the
/// pieces of what stands behind it.
pub proof fn lemma_split_first(first: Seq<char>, c: char, rest: Seq<char>)
    requires
        !first.contains(c),
    ensures
        split(first + seq![c] + rest, c) == seq![first] + split(rest, c),
{
    let s = first + seq![c] + rest;
    let n = first.len() as int;
    assert(s[n] == c);
    lemma_occurs_char(s, c, n);
    assert forall|j: int| 0 <= j < n implies !#[trigger] occurs_at(s, seq![c], j) by {
        lemma_occurs_char(s, c, j);
        assert(s[j] == first[j]);
        assert(first.contains(first[j]));
    }
    lemma_find_is(s, seq![c], 0, n);
    assert(s.take(n) =~= first);
    assert(s.skip(n + 1) =~= rest);
}

/// A text without the separator is its only piece.
pub proof fn lemma_split_none(s: Seq<char>, c: char)
    requires
        !s.contains(c),
    ensures
        split(s, c) == seq![s],
{
    assert forall|j: int| 0 <= j implies !#[trigger] occurs_at(s, seq![c], j) by {
        lemma_occurs_char(s, c, j);
    }
    lemma_find_none(s, seq![c], 0);
}

/// A text stands in itself.
pub proof fn lemma_contains_itself(s: Seq<char>)
    ensures
        contains(s, s),
{
    assert(s.subrange(0, s.len() as int) =~= s);
    assert(occurs_at(s, s, 0));
}

/// What stands in the middle of a text stands in the text.
pub proof fn lemma_contains_within(before: Seq<char>, s: Seq<char>, after: Seq<char>, t: Seq<char>)
    requires
        contains(s, t),
    ensures
        contains(before + s + after, t),
{
    let i = choose|i: int| occurs_at(s, t, i);
    let all = before + s + after;
    assert(all.subrange(before.len() + i, before.len() + i + t.len()) =~= s.subrange(
        i,
        i + t.len(),
    ));
    assert(occurs_at(all, t, before.len() + i));
}

/// What replaces a pattern stands in the text then, if the pattern stood in it.
pub proof fn lemma_replace_puts_in(s: Seq<char>, pattern: Seq<char>, by: Seq<char>, t: Seq<char>)
    requires
        pattern.len() > 0,
        contains(s, pattern),
        contains(by, t),
    ensures
        contains(replace(s, pattern, by), t),
{
    lemma_find_contains(s, pattern);
    lemma_find_from(s, pattern, 0);
    let i = find(s, pattern).unwrap();
    lemma_contains_within(
        s.take(i),
        by,
        replace(s.skip(i + pattern.len()), pattern, by),
        t,
    );
}

/// `p` and `t` agree where they overlap when `p` starts `d` places behind the start of `t`.
pub open spec fn agree(p: Seq<char>, t: Seq<char>, d: int) -> bool {
    forall|k: int| 0 <= k < p.len() && 0 <= k + d < t.len() ==> #[trigger] p[k] == t[k + d]
}

/// No text holds `p` and `t` in places that overlap.
pub open spec fn apart(p: Seq<char>, t: Seq<char>) -> bool {
    forall|d: int| -p.len() < d < t.len() ==> !#[trigger] agree(p, t, d)
}

/// What cannot overlap a pattern stays where the pattern is replaced.
pub proof fn lemma_replace_keeps(s: Seq<char>, pattern: Seq<char>, by: Seq<char>, t: Seq<char>)
    requires
        pattern.len() > 0,
        contains(s, t),
        apart(pattern, t),
    ensures
        contains(replace(s, pattern, by), t),
    decreases s.len(),
{
    lemma_find_from(s, pattern, 0);
    if let Some(i) = find(s, pattern) {
        let j = choose|j: int| occurs_at(s, t, j);
        let rest = s.skip(i + pattern.len());
        let new_rest = replace(rest, pattern, by);
        let all = s.take(i) + by + new_rest;
        if j + t.len() <= i {
            assert(all.subrange(j, j + t.len()) =~= s.subrange(j, j + t.len()));
            assert(occurs_at(all, t, j));
        } else if j >= i + pattern.len() {
            let k = j - i - pattern.len();
            assert(rest.subrange(k, k + t.len()) =~= s.subrange(j, j + t.len()));
            assert(occurs_at(rest, t, k));
            lemma_replace_keeps(rest, pattern, by, t);
            lemma_contains_within(s.take(i) + by, new_rest, Seq::empty(), t);
            assert(s.take(i) + by + new_rest + Seq::empty() =~= all);
        } else {
            let d = i - j;
            assert forall|k: int| 0 <= k < pattern.len() && 0 <= k + d < t.len() implies
                #[trigger] pattern[k] == t[k + d] by {
                assert(s.subrange(i, i + pattern.len())[k] == s[i + k]);
                assert(s.subrange(j, j + t.len())[k + d] == s[j + (k + d)]);
            }
            assert(agree(pattern, t, d));
        }
    }
}

/// `c` is the first character of `mark`, and no other.
pub open spec fn starts_only_with(mark: Seq<char>, c: char) -> bool {
    mark.len() > 0 && mark[0] == c && forall|k: int| 0 < k < mark.len() ==> #[trigger] mark[k] != c
}

/// Two marks of which only the first character is `c` cannot overlap where they differ behind it.
pub proof fn lemma_marks_apart(p: Seq<char>, t: Seq<char>, c: char, at: int)
    requires
        starts_only_with(p, c),
        starts_only_with(t, c),
        0 <= at < p.len(),
        at < t.len(),
        p[at] != t[at],
    ensures
        apart(p, t),
{
    assert forall|d: int| -p.len() < d < t.len() implies !#[trigger] agree(p, t, d) by {
        if agree(p, t, d) {
            if d > 0 {
                assert(p[0] == t[0 + d]);
            } else if d < 0 {
                assert(p[-d] == t[-d + d]);
            } else {
                assert(p[at] == t[at + d]);
            }
        }
    }
}

/// A mark that starts with `c` and a text without `c` cannot overlap where the mark does not hold
/// the first character of the text.
pub proof fn lemma_mark_apart_from_text(p: Seq<char>, t: Seq<char>, c: char)
    requires
        starts_only_with(p, c),
        t.len() > 0,
        !t.contains(c),
        !p.contains(t[0]),
    ensures
        apart(p, t),
{
    assert forall|d: int| -p.len() < d < t.len() implies !#[trigger] agree(p, t, d) by {
        if agree(p, t, d) {
            if d >= 0 {
                assert(p[0] == t[0 + d]);
            } else {
                assert(p[-d] == t[-d + d]);
            }
        }
    }
}

/// Of the ASCII characters just the space and the five controls from the tab to the carriage return
/// are white space; beyond ASCII the no-break space and the wide space are among it.
pub proof fn ascii_white_space_is_known(c: char)
    ensures
        (c as int) < 128 ==> (is_white_space(c) <==> c == ' ' || c == '\t' || c == '\n' || c == '\r'
            || c == '\u{b}' || c == '\u{c}'),
        is_white_space('\u{a0}') && is_white_space('\u{3000}'),
        is_digit(c) || 'a' <= c <= 'z' || 'A' <= c <= 'Z' ==> !is_white_space(c),
{
}

/// In lower case each of the 26 capital letters is the small letter at the same place of the
/// alphabet, and every other character is itself, at the place where it stood.
pub proof fn lower_case_changes_capitals_only(s: Seq<char>, i: int)
    requires
        0 <= i < s.len(),
    ensures
        ascii_lower(s).len() == s.len(),
        !('A' <= s[i] <= 'Z') ==> ascii_lower(s)[i] == s[i],
        'A' <= s[i] <= 'Z' ==> 'a' <= ascii_lower(s)[i] <= 'z' && ascii_lower(s)[i] as int - 'a' as int
            == s[i] as int - 'A' as int,
{
}

/// The first line of a text ends at its first line feed, with the carriage return before that left
/// out, and the others are the lines of what follows. A text without a line feed is one line, and an
/// empty one has none.
pub proof fn a_text_is_its_lines(line: Seq<char>, rest: Seq<char>)
    requires
        !line.contains('\n'),
    ensures
        lines(line + seq!['\n'] + rest) == seq![strip_carriage_return(line)] + lines(rest),
        line.len() > 0 ==> lines(line) == seq![line],
        lines(Seq::empty()).len() == 0,
        line.len() > 0 && line.last() != '\r' ==> strip_carriage_return(line) == line,
        strip_carriage_return(line.push('\r')) == line,
{
    let s = line + seq!['\n'] + rest;
    lemma_split_once_char(line, '\n', rest);
    lemma_find_from(s, seq!['\n'], 0);
    lemma_without_char(line, '\n');
    assert(line.push('\r').drop_last() =~= line);
    let n = line.len() as int;
    assert(s[n] == '\n');
    lemma_occurs_char(s, '\n', n);
    assert forall|j: int| 0 <= j < n implies !#[trigger] occurs_at(s, seq!['\n'], j) by {
        lemma_occurs_char(s, '\n', j);
        assert(s[j] == line[j]);
        assert(line.contains(line[j]));
    }
    lemma_find_is(s, seq!['\n'], 0, n);
    assert(s.take(n) =~= line);
    assert(s.skip(n + 1) =~= rest);
    assert forall|j: int| 0 <= j implies !#[trigger] occurs_at(line, seq!['\n'], j) by {
        lemma_occurs_char(line, '\n', j);
    }
    lemma_find_none(line, seq!['\n'], 0);
}

/// A number may have one plus sign in front, and leading zeros; what holds anything but digits behind
/// that, or nothing, or a number beyond the bound, is not read.
pub proof fn a_number_is_read_from_digits(n: nat, max: nat, s: Seq<char>, i: int)
    ensures
        n <= max ==> parse_unsigned(decimal(n), max) == Some(n) && parse_unsigned(
            seq!['+'] + decimal(n),
            max,
        ) == Some(n),
        n > max ==> parse_unsigned(decimal(n), max) is None,
        parse_unsigned(Seq::empty(), max) is None,
        0 < i < s.len() && !is_digit(s[i]) ==> parse_unsigned(s, max) is None,
        s.len() > 0 && !is_digit(s[0]) && s[0] != '+' ==> parse_unsigned(s, max) is None,
{
    lemma_decimal(n);
    assert(is_digit(decimal(n)[0]));
    let plus = seq!['+'] + decimal(n);
    assert(plus.skip(1) =~= decimal(n));
    if s.len() > 0 && s[0] == '+' && 0 < i < s.len() && !is_digit(s[i]) {
        assert(s.skip(1)[i - 1] == s[i]);
    }
}

} // verus!
