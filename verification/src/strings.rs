//! The operations of `text` on executable strings: a text is taken apart as a vector of
//! characters and put together again as a `String`.

use vstd::prelude::*;

use crate::text;

verus! {

/// `String::push` of std: appends the character to the end of the string.
pub assume_specification[ String::push ](s: &mut String, c: char)
    ensures
        final(s)@ == old(s)@.push(c),
;

/// The characters of `s`.
pub fn chars_of(s: &str) -> (r: Vec<char>)
    ensures
        r@ == s@,
{
    let mut out: Vec<char> = Vec::new();
    for c in it: s.chars()
        invariant
            out@ == it.seq().take(it.index()),
            it.seq() == s@,
    {
        out.push(c);
    }
    out
}

/// The string with the characters `chars`.
pub fn string_of(chars: &Vec<char>) -> (r: String)
    ensures
        r@ == chars@,
{
    let mut out: String = String::new();
    for i in 0..chars.len()
        invariant
            out@ == chars@.take(i as int),
    {
        out.push(chars[i]);
        assert(chars@.take(i as int).push(chars@[i as int]) =~= chars@.take(i + 1));
    }
    assert(chars@.take(chars@.len() as int) =~= chars@);
    out
}

/// The characters of `chars` from `from` up to, and without, `to`.
pub fn range_of(chars: &Vec<char>, from: usize, to: usize) -> (r: Vec<char>)
    requires
        from <= to <= chars@.len(),
    ensures
        r@ == chars@.subrange(from as int, to as int),
{
    let mut out: Vec<char> = Vec::new();
    for i in from..to
        invariant
            from <= to <= chars@.len(),
            out@ == chars@.subrange(from as int, i as int),
    {
        out.push(chars[i]);
        assert(chars@.subrange(from as int, i as int).push(chars@[i as int]) =~= chars@.subrange(
            from as int,
            i + 1,
        ));
    }
    out
}

/// Appends the characters `more` to `chars`.
pub fn append_chars(chars: &mut Vec<char>, more: &Vec<char>)
    ensures
        final(chars)@ == old(chars)@ + more@,
{
    let ghost start = chars@;
    assert(start + more@.take(0) =~= start);
    for i in 0..more.len()
        invariant
            chars@ == start + more@.take(i as int),
    {
        chars.push(more[i]);
        assert((start + more@.take(i as int)).push(more@[i as int]) =~= start + more@.take(i + 1));
    }
    assert(more@.take(more@.len() as int) =~= more@);
}

/// The two texts are the same.
pub fn same_chars(a: &Vec<char>, b: &Vec<char>) -> (r: bool)
    ensures
        r == (a@ == b@),
{
    if a.len() != b.len() {
        return false;
    }
    for i in 0..a.len()
        invariant
            a@.len() == b@.len(),
            forall|j: int| 0 <= j < i ==> a@[j] == b@[j],
    {
        if a[i] != b[i] {
            return false;
        }
    }
    assert(a@ =~= b@);
    true
}

/// The two texts are the same.
pub fn same_text(a: &str, b: &str) -> (r: bool)
    ensures
        r == (a@ == b@),
{
    a.to_owned() == b.to_owned()
}

/// `text` is one of `options`.
pub open spec fn listed(options: Seq<&'static str>, text: Seq<char>) -> bool {
    exists|i: int| 0 <= i < options.len() && #[trigger] options[i]@ == text
}

/// Whether `text` is one of `options`.
pub fn is_one_of(text: &str, options: &[&'static str]) -> (r: bool)
    ensures
        r == listed(options@, text@),
{
    for i in 0..options.len()
        invariant
            forall|j: int| 0 <= j < i ==> #[trigger] options@[j]@ != text@,
    {
        if same_text(text, options[i]) {
            assert(options@[i as int]@ == text@);
            return true;
        }
    }
    false
}

/// `s` with its ASCII letters in lower case.
pub fn lowered_string(s: &str) -> (r: String)
    ensures
        r@ == text::ascii_lower(s@),
{
    string_of(&lowered(&chars_of(s)))
}

/// Whether `c` has the Unicode `White_Space` property.
pub fn white_space(c: char) -> (r: bool)
    ensures
        r == text::is_white_space(c),
{
    ('\u{9}' <= c && c <= '\u{d}') || c == ' ' || c == '\u{85}' || c == '\u{a0}' || c == '\u{1680}'
        || ('\u{2000}' <= c && c <= '\u{200a}') || c == '\u{2028}' || c == '\u{2029}' || c
        == '\u{202f}' || c == '\u{205f}' || c == '\u{3000}'
}

/// Whether `c` is an ASCII digit.
pub fn digit(c: char) -> (r: bool)
    ensures
        r == text::is_digit(c),
{
    '0' <= c && c <= '9'
}

/// `chars` without leading white space.
pub fn trimmed_start(chars: &Vec<char>) -> (r: Vec<char>)
    ensures
        r@ == text::trim_start(chars@),
{
    let mut i: usize = 0;
    while i < chars.len() && white_space(chars[i])
        invariant
            i <= chars@.len(),
            forall|j: int| 0 <= j < i ==> text::is_white_space(#[trigger] chars@[j]),
        decreases chars@.len() - i,
    {
        i = i + 1;
    }
    proof {
        text::lemma_trim_start_is(chars@, i as int);
        assert(chars@.subrange(i as int, chars@.len() as int) =~= chars@.skip(i as int));
    }
    range_of(chars, i, chars.len())
}

/// `chars` without trailing white space.
pub fn trimmed_end(chars: &Vec<char>) -> (r: Vec<char>)
    ensures
        r@ == text::trim_end(chars@),
{
    let mut n: usize = chars.len();
    while n > 0 && white_space(chars[n - 1])
        invariant
            n <= chars@.len(),
            forall|j: int| n <= j < chars@.len() ==> text::is_white_space(#[trigger] chars@[j]),
        decreases n,
    {
        n = n - 1;
    }
    proof {
        text::lemma_trim_end_is(chars@, n as int);
        assert(chars@.subrange(0, n as int) =~= chars@.take(n as int));
    }
    range_of(chars, 0, n)
}

/// `chars` without white space at either end.
pub fn trimmed(chars: &Vec<char>) -> (r: Vec<char>)
    ensures
        r@ == text::trim(chars@),
{
    trimmed_end(&trimmed_start(chars))
}

/// Whether `s` holds nothing but white space.
pub fn blank(s: &str) -> (r: bool)
    ensures
        r == text::is_blank(s@),
{
    trimmed(&chars_of(s)).len() == 0
}

/// `c` as a small letter, where it is an ASCII capital.
pub fn lowered_char(c: char) -> (r: char)
    ensures
        r == text::lower_char(c),
{
    if 'A' <= c && c <= 'Z' {
        ((c as u8) + 32) as char
    } else {
        c
    }
}

/// `chars` with its ASCII letters in lower case.
pub fn lowered(chars: &Vec<char>) -> (r: Vec<char>)
    ensures
        r@ == text::ascii_lower(chars@),
{
    let mut out: Vec<char> = Vec::new();
    for i in 0..chars.len()
        invariant
            out@ == text::ascii_lower(chars@.take(i as int)),
    {
        out.push(lowered_char(chars[i]));
        assert(out@ =~= text::ascii_lower(chars@.take(i + 1)));
    }
    assert(chars@.take(chars@.len() as int) =~= chars@);
    out
}

/// Whether `pattern` stands in `chars` at index `at`.
pub fn stands_at(chars: &Vec<char>, pattern: &Vec<char>, at: usize) -> (r: bool)
    ensures
        r == text::occurs_at(chars@, pattern@, at as int),
{
    if chars.len() < pattern.len() || chars.len() - pattern.len() < at {
        return false;
    }
    let total: usize = chars.len();
    let ghost piece = chars@.subrange(at as int, at + pattern@.len());
    for k in 0..pattern.len()
        invariant
            total == chars@.len(),
            at + pattern@.len() <= total,
            piece == chars@.subrange(at as int, at + pattern@.len()),
            forall|j: int| 0 <= j < k ==> piece[j] == pattern@[j],
    {
        if chars[at + k] != pattern[k] {
            assert(piece[k as int] != pattern@[k as int]);
            return false;
        }
        assert(piece[k as int] == pattern@[k as int]);
    }
    assert(piece =~= pattern@);
    true
}

/// The first index of `chars` at which `pattern` stands.
pub fn found(chars: &Vec<char>, pattern: &Vec<char>) -> (r: Option<usize>)
    ensures
        match r {
            Some(i) => text::find(chars@, pattern@) == Some(i as int) && text::occurs_at(
                chars@,
                pattern@,
                i as int,
            ),
            None => text::find(chars@, pattern@) is None,
        },
{
    let mut i: usize = 0;
    while i < chars.len() && !stands_at(chars, pattern, i)
        invariant
            i <= chars@.len(),
            forall|j: int| 0 <= j < i ==> !#[trigger] text::occurs_at(chars@, pattern@, j),
        decreases chars@.len() - i,
    {
        i = i + 1;
    }
    if stands_at(chars, pattern, i) {
        proof {
            text::lemma_find_is(chars@, pattern@, 0, i as int);
        }
        Some(i)
    } else {
        proof {
            text::lemma_find_none(chars@, pattern@, 0);
        }
        None
    }
}

/// Whether `pattern` stands somewhere in `chars`.
pub fn has(chars: &Vec<char>, pattern: &str) -> (r: bool)
    ensures
        r == text::contains(chars@, pattern@),
{
    proof {
        text::lemma_find_contains(chars@, pattern@);
    }
    found(chars, &chars_of(pattern)).is_some()
}

/// Whether `prefix` stands at the start of `chars`.
pub fn begins(chars: &Vec<char>, prefix: &str) -> (r: bool)
    ensures
        r == text::starts_with(chars@, prefix@),
{
    let p = chars_of(prefix);
    proof {
        if prefix@.len() <= chars@.len() {
            assert(chars@.subrange(0, prefix@.len() as int) =~= chars@.take(
                prefix@.len() as int,
            ));
        }
    }
    stands_at(chars, &p, 0)
}

/// What follows `prefix` at the start of `chars`, if it stands there.
pub fn without_prefix(chars: &Vec<char>, prefix: &str) -> (r: Option<Vec<char>>)
    ensures
        match r {
            Some(rest) => text::strip_prefix(chars@, prefix@) == Some(rest@),
            None => text::strip_prefix(chars@, prefix@) is None,
        },
{
    if begins(chars, prefix) {
        let n: usize = chars_of(prefix).len();
        assert(chars@.subrange(n as int, chars@.len() as int) =~= chars@.skip(n as int));
        Some(range_of(chars, n, chars.len()))
    } else {
        None
    }
}

/// What stands before and after the first `pattern` in `chars`.
pub fn cut_once(chars: &Vec<char>, pattern: &str) -> (r: Option<(Vec<char>, Vec<char>)>)
    ensures
        match r {
            Some((left, right)) => text::split_once(chars@, pattern@) == Some((left@, right@)),
            None => text::split_once(chars@, pattern@) is None,
        },
{
    let p = chars_of(pattern);
    match found(chars, &p) {
        Some(i) => {
            let total: usize = chars.len();
            assert(i + p@.len() <= total);
            assert(chars@.subrange(0, i as int) =~= chars@.take(i as int));
            assert(chars@.subrange(i + p@.len(), chars@.len() as int) =~= chars@.skip(
                i + p@.len(),
            ));
            Some((range_of(chars, 0, i), range_of(chars, i + p.len(), total)))
        },
        None => None,
    }
}

/// What stands before the first `pattern` in `chars`, or all of it.
pub fn cut_before(chars: &Vec<char>, pattern: &str) -> (r: Vec<char>)
    ensures
        r@ == text::before(chars@, pattern@),
{
    match cut_once(chars, pattern) {
        Some((left, _)) => left,
        None => range_of(chars, 0, chars.len()),
    }
}

/// What stands after the last `c` in `chars`.
pub fn cut_after_last(chars: &Vec<char>, c: char) -> (r: Option<Vec<char>>)
    ensures
        match r {
            Some(rest) => text::after_last(chars@, c) == Some(rest@),
            None => text::after_last(chars@, c) is None,
        },
{
    let mut n: usize = chars.len();
    let ghost all = chars@;
    assert(all.skip(all.len() as int) =~= Seq::<char>::empty());
    assert(all.take(all.len() as int) =~= all);
    proof {
        if let Some(rest) = text::after_last(all, c) {
            assert(rest + all.skip(all.len() as int) =~= rest);
        }
    }
    while n > 0 && chars[n - 1] != c
        invariant
            all == chars@,
            n <= chars@.len(),
            match text::after_last(all.take(n as int), c) {
                Some(rest) => text::after_last(all, c) == Some(rest + all.skip(n as int)),
                None => text::after_last(all, c) is None,
            },
        decreases n,
    {
        proof {
            let front = all.take(n as int);
            assert(front.drop_last() =~= all.take(n - 1));
            assert(front.last() == all[n - 1]);
            if let Some(rest) = text::after_last(all.take(n - 1), c) {
                assert(rest.push(all[n - 1]) + all.skip(n as int) =~= rest + all.skip(n - 1));
            }
        }
        n = n - 1;
    }
    if n > 0 {
        proof {
            assert(all.take(n as int).last() == all[n - 1]);
            assert(Seq::<char>::empty() + all.skip(n as int) =~= all.skip(n as int));
            assert(all.subrange(n as int, all.len() as int) =~= all.skip(n as int));
        }
        Some(range_of(chars, n, chars.len()))
    } else {
        None
    }
}

/// The views of a list of texts.
pub open spec fn char_views(list: Seq<Vec<char>>) -> Seq<Seq<char>> {
    list.map_values(|v: Vec<char>| v@)
}

/// The pieces of `chars` between the characters `c`.
pub fn pieces(chars: &Vec<char>, c: char) -> (r: Vec<Vec<char>>)
    ensures
        char_views(r@) == text::split(chars@, c),
{
    let mut out: Vec<Vec<char>> = Vec::new();
    let mut start: usize = 0;
    let mut i: usize = 0;
    let ghost all = chars@;
    assert(all.skip(0) =~= all);
    assert(char_views(out@) + text::split(all, c) =~= text::split(all, c));
    while i < chars.len()
        invariant
            all == chars@,
            start <= i <= chars@.len(),
            text::split(all, c) == char_views(out@) + text::split(all.skip(start as int), c),
            forall|j: int| start <= j < i ==> all[j] != c,
        decreases chars@.len() - i,
    {
        if chars[i] == c {
            let piece = range_of(chars, start, i);
            proof {
                let rest = all.skip(start as int);
                let k = i - start;
                text::lemma_occurs_char(rest, c, k);
                assert forall|j: int| 0 <= j < k implies !#[trigger] text::occurs_at(rest, seq![c], j) by {
                    text::lemma_occurs_char(rest, c, j);
                    assert(all[start + j] != c);
                }
                text::lemma_find_is(rest, seq![c], 0, k);
                assert(rest.take(k) =~= piece@);
                assert(rest.skip(k + 1) =~= all.skip(i + 1));
                assert(char_views(out@.push(piece)) =~= char_views(out@).push(piece@));
                assert(char_views(out@) + (seq![piece@] + text::split(all.skip(i + 1), c)) =~= char_views(
                    out@.push(piece),
                ) + text::split(all.skip(i + 1), c));
            }
            out.push(piece);
            start = i + 1;
        }
        i = i + 1;
    }
    let piece = range_of(chars, start, chars.len());
    proof {
        let rest = all.skip(start as int);
        assert forall|j: int| 0 <= j implies !#[trigger] text::occurs_at(rest, seq![c], j) by {
            text::lemma_occurs_char(rest, c, j);
            if j < rest.len() {
                assert(all[start + j] != c);
            }
        }
        text::lemma_find_none(rest, seq![c], 0);
        assert(rest =~= piece@);
        assert(char_views(out@.push(piece)) =~= char_views(out@) + seq![piece@]);
    }
    out.push(piece);
    out
}

/// The lines of `chars`.
pub fn lines_of(chars: &Vec<char>) -> (r: Vec<Vec<char>>)
    ensures
        char_views(r@) == text::lines(chars@),
{
    let mut out: Vec<Vec<char>> = Vec::new();
    let mut start: usize = 0;
    let mut i: usize = 0;
    let ghost all = chars@;
    assert(all.skip(0) =~= all);
    assert(char_views(out@) + text::lines(all) =~= text::lines(all));
    while i < chars.len()
        invariant
            all == chars@,
            start <= i <= chars@.len(),
            text::lines(all) == char_views(out@) + text::lines(all.skip(start as int)),
            forall|j: int| start <= j < i ==> all[j] != '\n',
        decreases chars@.len() - i,
    {
        if chars[i] == '\n' {
            let end: usize = if i > start && chars[i - 1] == '\r' {
                i - 1
            } else {
                i
            };
            let line = range_of(chars, start, end);
            proof {
                let rest = all.skip(start as int);
                let k = i - start;
                text::lemma_occurs_char(rest, '\n', k);
                assert forall|j: int| 0 <= j < k implies !#[trigger] text::occurs_at(
                    rest,
                    seq!['\n'],
                    j,
                ) by {
                    text::lemma_occurs_char(rest, '\n', j);
                    assert(all[start + j] != '\n');
                }
                text::lemma_find_is(rest, seq!['\n'], 0, k);
                if k > 0 {
                    assert(rest.take(k).last() == all[i - 1]);
                }
                assert(text::strip_carriage_return(rest.take(k)) =~= line@);
                assert(rest.skip(k + 1) =~= all.skip(i + 1));
                assert(char_views(out@.push(line)) =~= char_views(out@).push(line@));
                assert(char_views(out@) + (seq![line@] + text::lines(all.skip(i + 1))) =~= char_views(
                    out@.push(line),
                ) + text::lines(all.skip(i + 1)));
            }
            out.push(line);
            start = i + 1;
        }
        i = i + 1;
    }
    if start < chars.len() {
        let line = range_of(chars, start, chars.len());
        proof {
            let rest = all.skip(start as int);
            assert forall|j: int| 0 <= j implies !#[trigger] text::occurs_at(rest, seq!['\n'], j) by {
                text::lemma_occurs_char(rest, '\n', j);
                if j < rest.len() {
                    assert(all[start + j] != '\n');
                }
            }
            text::lemma_find_none(rest, seq!['\n'], 0);
            assert(rest =~= line@);
            assert(char_views(out@.push(line)) =~= char_views(out@) + seq![line@]);
        }
        out.push(line);
    } else {
        assert(char_views(out@) + text::lines(all.skip(start as int)) =~= char_views(out@));
    }
    out
}

/// `chars` with every `pattern` in it replaced by `by`.
pub fn replaced(chars: &Vec<char>, pattern: &str, by: &str) -> (r: Vec<char>)
    requires
        pattern@.len() > 0,
    ensures
        r@ == text::replace(chars@, pattern@, by@),
{
    let p = chars_of(pattern);
    let b = chars_of(by);
    let mut out: Vec<char> = Vec::new();
    let mut start: usize = 0;
    let mut i: usize = 0;
    let ghost all = chars@;
    assert(all.skip(0) =~= all);
    assert(out@ + text::replace(all, p@, b@) =~= text::replace(all, p@, b@));
    while i < chars.len()
        invariant
            all == chars@,
            p@ == pattern@,
            b@ == by@,
            p@.len() > 0,
            start <= i <= chars@.len(),
            text::replace(all, p@, b@) == out@ + text::replace(all.skip(start as int), p@, b@),
            forall|j: int| start <= j < i ==> !#[trigger] text::occurs_at(all, p@, j),
        decreases chars@.len() - i,
    {
        if stands_at(chars, &p, i) {
            let piece = range_of(chars, start, i);
            let ghost before_piece = out@;
            append_chars(&mut out, &piece);
            append_chars(&mut out, &b);
            proof {
                let rest = all.skip(start as int);
                let k = i - start;
                lemma_occurs_skip(all, p@, start as int, k);
                assert forall|j: int| 0 <= j < k implies !#[trigger] text::occurs_at(rest, p@, j) by {
                    lemma_occurs_skip(all, p@, start as int, j);
                    assert(!text::occurs_at(all, p@, start + j));
                }
                text::lemma_find_is(rest, p@, 0, k);
                assert(rest.take(k) =~= piece@);
                assert(rest.skip(k + p@.len()) =~= all.skip(i + p@.len()));
                assert(before_piece + (rest.take(k) + b@ + text::replace(
                    all.skip(i + p@.len()),
                    p@,
                    b@,
                )) =~= out@ + text::replace(all.skip(i + p@.len()), p@, b@));
            }
            start = i + p.len();
            i = start;
        } else {
            i = i + 1;
        }
    }
    let piece = range_of(chars, start, chars.len());
    proof {
        let rest = all.skip(start as int);
        assert forall|j: int| 0 <= j implies !#[trigger] text::occurs_at(rest, p@, j) by {
            lemma_occurs_skip(all, p@, start as int, j);
            if j < rest.len() {
                assert(!text::occurs_at(all, p@, start + j));
            }
        }
        text::lemma_find_none(rest, p@, 0);
        assert(rest =~= piece@);
    }
    append_chars(&mut out, &piece);
    out
}

/// A pattern stands in a suffix where it stands in the whole.
proof fn lemma_occurs_skip(s: Seq<char>, pattern: Seq<char>, n: int, j: int)
    requires
        0 <= n <= s.len(),
        0 <= j,
    ensures
        text::occurs_at(s.skip(n), pattern, j) == text::occurs_at(s, pattern, n + j),
{
    if n + j + pattern.len() <= s.len() {
        assert(s.skip(n).subrange(j, j + pattern.len()) =~= s.subrange(
            n + j,
            n + j + pattern.len(),
        ));
    }
}

/// The number, at most `max`, that `chars` writes in base ten.
pub fn parsed_unsigned(chars: &Vec<char>, max: u64) -> (r: Option<u64>)
    ensures
        match r {
            Some(n) => text::parse_unsigned(chars@, max as nat) == Some(n as nat),
            None => text::parse_unsigned(chars@, max as nat) is None,
        },
{
    let start: usize = if chars.len() > 0 && chars[0] == '+' {
        1
    } else {
        0
    };
    if start == chars.len() {
        return None;
    }
    let ghost body = chars@.skip(start as int);
    assert(start == 0 ==> body =~= chars@);
    let mut value: u64 = 0;
    assert(body.take(0) =~= Seq::<char>::empty());
    for i in start..chars.len()
        invariant
            start < chars@.len(),
            start == 1 <==> chars@[0] == '+',
            start <= 1,
            body == chars@.skip(start as int),
            start == 0 ==> body == chars@,
            forall|j: int| 0 <= j < i - start ==> text::is_digit(#[trigger] body[j]),
            value == text::digits_value(body.take(i - start)),
            value <= max,
    {
        let c = chars[i];
        assert(body[i - start] == c);
        if !digit(c) {
            assert(!text::all_digits(body));
            return None;
        }
        let d: u64 = (c as u64) - ('0' as u64);
        proof {
            assert(body.take(i - start + 1).drop_last() =~= body.take(i - start));
            assert(body.take(i - start + 1).last() == c);
            text::lemma_digits_grow(body, i - start + 1);
        }
        let wide: u128 = (value as u128) * 10 + (d as u128);
        if wide > (max as u128) {
            return None;
        }
        value = wide as u64;
    }
    assert(body.take(body.len() as int) =~= body);
    Some(value)
}

/// `n` in base ten.
pub fn decimal_of(n: u64) -> (r: Vec<char>)
    ensures
        r@ == text::decimal(n as nat),
    decreases n,
{
    let d: u64 = n % 10;
    let c: char = (('0' as u8) + (d as u8)) as char;
    if n < 10 {
        let mut out: Vec<char> = Vec::new();
        out.push(c);
        assert(out@ =~= seq![text::digit_char(n as nat)]);
        out
    } else {
        let mut out = decimal_of(n / 10);
        out.push(c);
        out
    }
}

/// `n` in base ten.
pub fn decimal_string(n: u64) -> (r: String)
    ensures
        r@ == text::decimal(n as nat),
{
    string_of(&decimal_of(n))
}

/// The texts of `parts` in order, with `separator` between each two.
pub fn joined(parts: &Vec<String>, separator: &str) -> (r: String)
    ensures
        r@ == text::join(text::views(parts@), separator@),
{
    let mut out: String = String::new();
    for i in 0..parts.len()
        invariant
            out@ == text::join(text::views(parts@).take(i as int), separator@),
    {
        proof {
            text::lemma_join_push(text::views(parts@).take(i as int), parts@[i as int]@, separator@);
            assert(text::views(parts@).take(i + 1) =~= text::views(parts@).take(i as int).push(
                parts@[i as int]@,
            ));
        }
        if i > 0 {
            out.append(separator);
        } else {
            assert(Seq::<char>::empty() + parts@[i as int]@ =~= parts@[i as int]@);
        }
        out.append(parts[i].as_str());
    }
    assert(text::views(parts@).take(parts@.len() as int) =~= text::views(parts@));
    out
}

} // verus!
