//! The output of the update scripts: how it is cut into lines, and what the splash window shows of
//! a line.

use vstd::prelude::*;

use crate::strings;
use crate::text;

verus! {

/// A byte that belongs to a line of output.
pub open spec fn is_printable(c: u8) -> bool {
    32 <= c <= 127
}

/// The characters of a row of bytes that belong to lines.
pub open spec fn printable(bytes: Seq<u8>) -> Seq<char>
    decreases bytes.len(),
{
    if bytes.len() == 0 {
        Seq::empty()
    } else if is_printable(bytes.last()) {
        printable(bytes.drop_last()).push(bytes.last() as char)
    } else {
        printable(bytes.drop_last())
    }
}

/// How much of the line so far is complete once another `:` comes: a label that stands before the
/// first `:` and again at the end starts a new line there.
pub open spec fn complete_part(buffer: Seq<char>) -> int {
    match text::split_once(buffer, ":"@) {
        Some((label, rest)) => if label.is_suffix_of(rest) {
            rest.len() as int + 1
        } else {
            0
        },
        None => 0,
    }
}

/// The line that is complete once the byte `c` comes after `buffer`, and what the next line holds
/// then.
pub open spec fn after_byte(buffer: Seq<char>, c: u8) -> (Option<Seq<char>>, Seq<char>) {
    if !is_printable(c) {
        if buffer.len() > 0 {
            (Some(buffer), Seq::empty())
        } else {
            (None, buffer)
        }
    } else if c as char == ':' && complete_part(buffer) > 0 {
        let cut = complete_part(buffer);
        (Some(buffer.take(cut)), buffer.skip(cut).push(':'))
    } else {
        (None, buffer.push(c as char))
    }
}

/// The lines that are complete once `bytes` come after `buffer`, and what the next line holds
/// then.
pub open spec fn after_bytes(buffer: Seq<char>, bytes: Seq<u8>) -> (Seq<Seq<char>>, Seq<char>)
    decreases bytes.len(),
{
    if bytes.len() == 0 {
        (Seq::empty(), buffer)
    } else {
        let (lines, rest) = after_bytes(buffer, bytes.drop_last());
        match after_byte(rest, bytes.last()) {
            (Some(line), next) => (lines.push(line), next),
            (None, next) => (lines, next),
        }
    }
}

/// Cuts the output of a script into lines, byte by byte.
#[derive(Clone, Debug)]
pub struct LineSplitter {
    pub buffer: Vec<char>,
}

impl LineSplitter {
    /// A splitter that no byte has come to.
    pub fn new() -> (r: LineSplitter)
        ensures
            r.buffer@ == Seq::<char>::empty(),
    {
        LineSplitter { buffer: Vec::new() }
    }

    /// Takes the next byte, and returns the line that is complete with it.
    pub fn feed(&mut self, c: u8) -> (r: Option<String>)
        ensures
            (text::view_of(r), final(self).buffer@) == after_byte(old(self).buffer@, c),
    {
        if c < 32 || c > 127 {
            if self.buffer.len() == 0 {
                return None;
            }
            let line: String = strings::string_of(&self.buffer);
            self.buffer = Vec::new();
            return Some(line);
        }
        if c as char == ':' {
            let total: usize = self.buffer.len();
            let cut: usize = match strings::cut_once(&self.buffer, ":") {
                Some((label, rest)) => {
                    proof {
                        reveal_strlit(":");
                        text::lemma_find_from(self.buffer@, ":"@, 0);
                        assert(rest@.len() + 1 <= total);
                    }
                    if ends_with(&rest, &label) {
                        rest.len() + 1
                    } else {
                        0
                    }
                },
                None => 0,
            };
            if cut > 0 {
                proof {
                    reveal_strlit(":");
                    text::lemma_find_from(self.buffer@, ":"@, 0);
                    assert(self.buffer@.subrange(0, cut as int) =~= self.buffer@.take(cut as int));
                    assert(self.buffer@.subrange(cut as int, self.buffer@.len() as int)
                        =~= self.buffer@.skip(cut as int));
                }
                let line: String = strings::string_of(&strings::range_of(&self.buffer, 0, cut));
                let mut rest: Vec<char> = strings::range_of(&self.buffer, cut, self.buffer.len());
                rest.push(':');
                self.buffer = rest;
                return Some(line);
            }
        }
        self.buffer.push(c as char);
        None
    }

    /// Takes the next bytes, and returns the lines that are complete with them.
    pub fn feed_all(&mut self, bytes: &[u8]) -> (r: Vec<String>)
        ensures
            (text::views(r@), final(self).buffer@) == after_bytes(old(self).buffer@, bytes@),
    {
        let mut out: Vec<String> = Vec::new();
        let ghost start = self.buffer@;
        assert(bytes@.take(0) =~= Seq::<u8>::empty());
        assert(text::views(out@) =~= Seq::<Seq<char>>::empty());
        for i in 0..bytes.len()
            invariant
                (text::views(out@), self.buffer@) == after_bytes(start, bytes@.take(i as int)),
        {
            assert(bytes@.take(i + 1).drop_last() =~= bytes@.take(i as int));
            assert(bytes@.take(i + 1).last() == bytes@[i as int]);
            if let Some(line) = self.feed(bytes[i]) {
                assert(text::views(out@.push(line)) =~= text::views(out@).push(line@));
                out.push(line);
            }
        }
        assert(bytes@.take(bytes@.len() as int) =~= bytes@);
        out
    }

    /// The last line, once the output has ended.
    pub fn finish(self) -> (r: Option<String>)
        ensures
            text::view_of(r) == if self.buffer@.len() > 0 {
                Some(self.buffer@)
            } else {
                None
            },
    {
        if self.buffer.len() == 0 {
            None
        } else {
            Some(strings::string_of(&self.buffer))
        }
    }
}

/// Whether `chars` ends with `suffix`.
fn ends_with(chars: &Vec<char>, suffix: &Vec<char>) -> (r: bool)
    ensures
        r == suffix@.is_suffix_of(chars@),
{
    if suffix.len() > chars.len() {
        return false;
    }
    let at: usize = chars.len() - suffix.len();
    strings::stands_at(chars, suffix, at)
}

/// All of a row of texts, one behind the other.
pub open spec fn joined(lines: Seq<Seq<char>>) -> Seq<char> {
    text::join(lines, Seq::empty())
}

/// A byte that comes is neither lost nor doubled: the line that is complete and the line that
/// follows hold what the line so far held, and the byte if it is printable. A line that is complete
/// is not empty.
pub proof fn no_byte_is_lost(buffer: Seq<char>, c: u8)
    ensures
        ({
            let (line, rest) = after_byte(buffer, c);
            &&& line is Some ==> line->0.len() > 0
            &&& (match line {
                Some(l) => l,
                None => Seq::empty(),
            }) + rest == if is_printable(c) {
                buffer.push(c as char)
            } else {
                buffer
            }
        }),
{
    reveal_strlit(":");
    text::lemma_find_from(buffer, ":"@, 0);
    let (line, rest) = after_byte(buffer, c);
    let first = match line {
        Some(l) => l,
        None => Seq::empty(),
    };
    assert(first + rest =~= if is_printable(c) {
        buffer.push(c as char)
    } else {
        buffer
    });
}

/// However output is cut, its lines in order, with the last one that is still open, hold exactly
/// its printable bytes, and no line is empty.
pub proof fn no_output_is_lost(bytes: Seq<u8>)
    ensures
        joined(after_bytes(Seq::empty(), bytes).0) + after_bytes(Seq::empty(), bytes).1
            == printable(bytes),
        forall|i: int|
            0 <= i < after_bytes(Seq::empty(), bytes).0.len() ==> (#[trigger] after_bytes(
                Seq::empty(),
                bytes,
            ).0[i]).len() > 0,
    decreases bytes.len(),
{
    if bytes.len() == 0 {
        assert(joined(after_bytes(Seq::empty(), bytes).0) + after_bytes(Seq::empty(), bytes).1
            =~= printable(bytes));
    } else {
        let front = bytes.drop_last();
        no_output_is_lost(front);
        let (lines, rest) = after_bytes(Seq::empty(), front);
        no_byte_is_lost(rest, bytes.last());
        let (line, next) = after_byte(rest, bytes.last());
        let all = after_bytes(Seq::empty(), bytes);
        match line {
            Some(l) => {
                text::lemma_join_push(lines, l, Seq::empty());
                if lines.len() > 0 {
                    assert(joined(lines) + Seq::empty() + l + next =~= joined(lines) + (l + next));
                } else {
                    assert(l + next =~= joined(lines) + (l + next));
                }
                assert forall|i: int| 0 <= i < all.0.len() implies (#[trigger] all.0[i]).len()
                    > 0 by {
                    if i < lines.len() {
                        assert(all.0[i] == lines[i]);
                    }
                }
            },
            None => {
                assert(Seq::<char>::empty() + next =~= next);
            },
        }
        if is_printable(bytes.last()) {
            assert(joined(lines) + rest.push(bytes.last() as char) =~= (joined(lines) + rest).push(
                bytes.last() as char,
            ));
        }
    }
}

/// A row of printable bytes other than colons, and a byte behind it that is not printable, is one
/// line.
pub proof fn a_line_ends_at_an_unprintable_byte(bytes: Seq<u8>, end: u8)
    requires
        bytes.len() > 0,
        forall|i: int|
            0 <= i < bytes.len() ==> is_printable(#[trigger] bytes[i]) && bytes[i] as char != ':',
        !is_printable(end),
    ensures
        after_bytes(Seq::empty(), bytes.push(end)) == (
            seq![bytes.map_values(|b: u8| b as char)],
            Seq::<char>::empty(),
        ),
{
    lemma_plain_bytes(bytes);
    assert(bytes.push(end).drop_last() =~= bytes);
    let line = bytes.map_values(|b: u8| b as char);
    assert(Seq::<Seq<char>>::empty().push(line) =~= seq![line]);
}

proof fn lemma_plain_bytes(bytes: Seq<u8>)
    requires
        forall|i: int|
            0 <= i < bytes.len() ==> is_printable(#[trigger] bytes[i]) && bytes[i] as char != ':',
    ensures
        after_bytes(Seq::empty(), bytes) == (
            Seq::<Seq<char>>::empty(),
            bytes.map_values(|b: u8| b as char),
        ),
    decreases bytes.len(),
{
    let line = bytes.map_values(|b: u8| b as char);
    if bytes.len() == 0 {
        assert(line =~= Seq::<char>::empty());
    } else {
        let front = bytes.drop_last();
        assert forall|i: int| 0 <= i < front.len() implies is_printable(#[trigger] front[i])
            && front[i] as char != ':' by {
            assert(front[i] == bytes[i]);
        }
        lemma_plain_bytes(front);
        let last = bytes[bytes.len() - 1];
        assert(is_printable(last) && last as char != ':');
        assert(line =~= front.map_values(|b: u8| b as char).push(last as char));
    }
}

/// The output of a transfer that writes its label anew for each report without a line end between
/// them is cut before each label: what came before it is a line, and the next line starts with the
/// label.
pub proof fn a_label_that_comes_again_starts_a_line(label: Seq<char>, report: Seq<char>)
    requires
        !label.contains(':'),
    ensures
        after_byte(label + seq![':'] + report + label, 58) == (
            Some(label + seq![':'] + report),
            label.push(':'),
        ),
{
    reveal_strlit(":");
    assert(":"@ =~= seq![':']);
    let buffer = label + seq![':'] + report + label;
    let rest = report + label;
    assert(buffer =~= label + seq![':'] + rest);
    text::lemma_split_once_char(label, ':', rest);
    assert(rest.skip(rest.len() - label.len()) =~= label);
    assert(rest.subrange(rest.len() - label.len(), rest.len() as int) =~= label);
    assert(label.is_suffix_of(rest));
    let cut = rest.len() as int + 1;
    assert(58u8 as char == ':');
    let line = label + seq![':'] + report;
    assert(line.len() == cut);
    assert(buffer.take(cut) =~= line);
    assert(buffer.skip(cut) =~= label);
}

/// A colon behind a line that has none before, or whose label does not come again, belongs to the
/// line.
pub proof fn any_other_colon_belongs_to_the_line(label: Seq<char>, report: Seq<char>)
    requires
        !label.contains(':'),
        label.len() > 0,
        !label.is_suffix_of(report),
    ensures
        after_byte(label, 58) == (None::<Seq<char>>, label.push(':')),
        after_byte(label + seq![':'] + report, 58) == (
            None::<Seq<char>>,
            (label + seq![':'] + report).push(':'),
        ),
{
    reveal_strlit(":");
    assert(":"@ =~= seq![':']);
    assert(58u8 as char == ':');
    text::lemma_without_char(label, ':');
    text::lemma_split_once_char(label, ':', report);
}

} // verus!
