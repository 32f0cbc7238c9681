//! Texts in HTML.

use vstd::prelude::*;

use crate::text;

verus! {

/// A character as it stands in HTML.
pub open spec fn entity(c: char) -> Seq<char> {
    if c == '&' {
        "&amp;"@
    } else if c == '<' {
        "&lt;"@
    } else if c == '>' {
        "&gt;"@
    } else if c == '"' {
        "&quot;"@
    } else if c == '\'' {
        "&#39;"@
    } else {
        seq![c]
    }
}

/// A text as it stands in HTML, character by character.
pub open spec fn escaped(s: Seq<char>) -> Seq<char>
    decreases s.len(),
{
    if s.len() == 0 {
        Seq::empty()
    } else {
        escaped(s.drop_last()) + entity(s.last())
    }
}

/// A text as it stands in HTML.
pub fn escape_html(input: &str) -> (r: String)
    ensures
        r@ == escaped(input@),
{
    let mut output: String = String::new();
    let ghost all = input@;
    assert(all.take(0) =~= Seq::<char>::empty());
    for c in it: input.chars()
        invariant
            it.seq() == all,
            output@ == escaped(all.take(it.index() as int)),
    {
        let ghost i = it.index() as int;
        let ghost before = output@;
        assert(all.take(i + 1).drop_last() =~= all.take(i));
        assert(all.take(i + 1).last() == c);
        if c == '&' {
            output.append("&amp;");
        } else if c == '<' {
            output.append("&lt;");
        } else if c == '>' {
            output.append("&gt;");
        } else if c == '"' {
            output.append("&quot;");
        } else if c == '\'' {
            output.append("&#39;");
        } else {
            output.push(c);
        }
        assert(output@ =~= before + entity(c));
    }
    assert(all.take(all.len() as int) =~= all);
    output
}

/// The character means something to HTML where it stands in a text or in a quoted attribute.
pub open spec fn is_markup(c: char) -> bool {
    c == '<' || c == '>' || c == '"' || c == '\''
}

/// A text as it stands in HTML holds none of the characters that would end it.
pub proof fn an_escaped_text_holds_no_markup(s: Seq<char>)
    ensures
        forall|i: int| 0 <= i < escaped(s).len() ==> !is_markup(#[trigger] escaped(s)[i]),
    decreases s.len(),
{
    if s.len() > 0 {
        let front = escaped(s.drop_last());
        an_escaped_text_holds_no_markup(s.drop_last());
        reveal_strlit("&amp;");
        reveal_strlit("&lt;");
        reveal_strlit("&gt;");
        reveal_strlit("&quot;");
        reveal_strlit("&#39;");
        assert forall|i: int| 0 <= i < escaped(s).len() implies !is_markup(
            #[trigger] escaped(s)[i],
        ) by {
            if i < front.len() {
                assert(escaped(s)[i] == front[i]);
            } else {
                assert(escaped(s)[i] == entity(s.last())[i - front.len()]);
            }
        }
    }
}

/// What HTML shows for a text, the five entities in it read as what they stand for.
pub open spec fn shown(s: Seq<char>) -> Seq<char>
    decreases s.len(),
{
    proof {
        reveal_strlit("&amp;");
        reveal_strlit("&lt;");
        reveal_strlit("&gt;");
        reveal_strlit("&quot;");
        reveal_strlit("&#39;");
    }
    if s.len() == 0 {
        Seq::empty()
    } else if text::starts_with(s, "&amp;"@) {
        seq!['&'] + shown(s.skip(5))
    } else if text::starts_with(s, "&lt;"@) {
        seq!['<'] + shown(s.skip(4))
    } else if text::starts_with(s, "&gt;"@) {
        seq!['>'] + shown(s.skip(4))
    } else if text::starts_with(s, "&quot;"@) {
        seq!['"'] + shown(s.skip(6))
    } else if text::starts_with(s, "&#39;"@) {
        seq!['\''] + shown(s.skip(5))
    } else {
        seq![s[0]] + shown(s.skip(1))
    }
}

proof fn lemma_escaped_first(s: Seq<char>)
    requires
        s.len() > 0,
    ensures
        escaped(s) == entity(s[0]) + escaped(s.skip(1)),
    decreases s.len(),
{
    if s.len() == 1 {
        assert(s.drop_last() =~= Seq::<char>::empty());
        assert(s.skip(1) =~= Seq::<char>::empty());
        assert(escaped(s) =~= entity(s[0]) + escaped(s.skip(1)));
    } else {
        lemma_escaped_first(s.drop_last());
        assert(s.drop_last().skip(1) =~= s.skip(1).drop_last());
        assert(escaped(s) =~= entity(s[0]) + (escaped(s.skip(1).drop_last()) + entity(s.last())));
    }
}

/// HTML shows an escaped text as the text that it was.
pub proof fn an_escaped_text_is_shown_as_it_was(s: Seq<char>)
    ensures
        shown(escaped(s)) == s,
    decreases s.len(),
{
    reveal_strlit("&amp;");
    reveal_strlit("&lt;");
    reveal_strlit("&gt;");
    reveal_strlit("&quot;");
    reveal_strlit("&#39;");
    if s.len() == 0 {
        assert(s =~= Seq::empty());
    } else {
        let rest = escaped(s.skip(1));
        lemma_escaped_first(s);
        an_escaped_text_is_shown_as_it_was(s.skip(1));
        let e = entity(s[0]);
        let all = escaped(s);
        assert(all.skip(e.len() as int) =~= rest);
        assert(s =~= seq![s[0]] + s.skip(1));
        assert(all[0] == e[0]);
        assert(all.take(e.len() as int) =~= e);
        if s[0] == '&' || s[0] == '<' || s[0] == '>' || s[0] == '"' || s[0] == '\'' {
            assert(all[1] == e[1]);
            assert(all[2] == e[2]);
            assert(text::starts_with(all, e));
            lemma_other_entity(all, "&amp;"@, e);
            lemma_other_entity(all, "&lt;"@, e);
            lemma_other_entity(all, "&gt;"@, e);
            lemma_other_entity(all, "&quot;"@, e);
            lemma_other_entity(all, "&#39;"@, e);
        } else {
            lemma_not_at_start(all, "&amp;"@);
            lemma_not_at_start(all, "&lt;"@);
            lemma_not_at_start(all, "&gt;"@);
            lemma_not_at_start(all, "&quot;"@);
            lemma_not_at_start(all, "&#39;"@);
        }
    }
}

proof fn lemma_other_entity(s: Seq<char>, a: Seq<char>, b: Seq<char>)
    requires
        text::starts_with(s, b),
        a.len() >= 3,
        b.len() >= 3,
        a == b || a[1] != b[1] || a[2] != b[2],
    ensures
        text::starts_with(s, a) <==> a == b,
{
    if text::starts_with(s, a) && a != b {
        assert(s[1] == a[1] && s[2] == a[2]);
        assert(s[1] == b[1] && s[2] == b[2]);
    }
}

proof fn lemma_not_at_start(s: Seq<char>, a: Seq<char>)
    requires
        a.len() > 0,
        s.len() > 0,
        s[0] != a[0],
    ensures
        !text::starts_with(s, a),
{
}

} // verus!
