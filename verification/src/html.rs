//! HTML text escaping, and what it means for one text to appear inside
//! another.

use vstd::prelude::*;

verus! {

/// What one character contributes to escaped HTML text: the four
/// characters with meaning in markup become entities, every other
/// character stands as itself.
pub open spec fn escape_char(c: char) -> Seq<char> {
    if c == '&' {
        "&amp;"@
    } else if c == '"' {
        "&quot;"@
    } else if c == '<' {
        "&lt;"@
    } else if c == '>' {
        "&gt;"@
    } else {
        seq![c]
    }
}

/// The escaped form of a text: each character replaced by what it
/// contributes.
pub open spec fn escaped(s: Seq<char>) -> Seq<char>
    decreases s.len(),
{
    if s.len() == 0 {
        Seq::empty()
    } else {
        escaped(s.drop_last()) + escape_char(s.last())
    }
}

/// A text is plain when it holds none of the four characters that
/// escaping rewrites.
pub open spec fn plain_text(s: Seq<char>) -> bool {
    forall|i: int|
        0 <= i < s.len() ==> s[i] != '&' && s[i] != '"' && s[i] != '<' && s[i] != '>'
}

/// Escaping leaves a plain text exactly as it is.
pub proof fn lemma_escaped_plain(s: Seq<char>)
    requires
        plain_text(s),
    ensures
        escaped(s) == s,
    decreases s.len(),
{
    if s.len() == 0 {
        assert(escaped(s) =~= s);
    } else {
        assert(plain_text(s.drop_last()));
        lemma_escaped_plain(s.drop_last());
        assert(escape_char(s.last()) == seq![s.last()]);
        assert(escaped(s) =~= s);
    }
}

/// `needle` stands somewhere inside `hay` as one contiguous run.
pub open spec fn contains_sub(hay: Seq<char>, needle: Seq<char>) -> bool {
    exists|i: int|
        0 <= i && i + needle.len() <= hay.len() && #[trigger] hay.subrange(i, i + needle.len())
            == needle
}

/// A text contains itself.
pub proof fn lemma_contains_self(s: Seq<char>)
    ensures
        contains_sub(s, s),
{
    let i: int = 0;
    assert(s.subrange(i, i + s.len()) =~= s);
}

/// What the left part of a joined text contains, the whole contains.
pub proof fn lemma_contains_left(a: Seq<char>, b: Seq<char>, needle: Seq<char>)
    requires
        contains_sub(a, needle),
    ensures
        contains_sub(a + b, needle),
{
    let i = choose|i: int|
        0 <= i && i + needle.len() <= a.len() && #[trigger] a.subrange(i, i + needle.len())
            == needle;
    assert((a + b).subrange(i, i + needle.len()) =~= a.subrange(i, i + needle.len()));
}

/// What the right part of a joined text contains, the whole contains.
pub proof fn lemma_contains_right(a: Seq<char>, b: Seq<char>, needle: Seq<char>)
    requires
        contains_sub(b, needle),
    ensures
        contains_sub(a + b, needle),
{
    let i = choose|i: int|
        0 <= i && i + needle.len() <= b.len() && #[trigger] b.subrange(i, i + needle.len())
            == needle;
    assert((a + b).subrange(a.len() + i, a.len() + i + needle.len()) =~= b.subrange(
        i,
        i + needle.len(),
    ));
}

/// Relies on String::push: it appends exactly the one character.
#[verifier::external_body]
pub(crate) fn push_char(out: &mut String, c: char)
    ensures
        final(out)@ == old(out)@ + seq![c],
{
    out.push(c);
}

/// Append the escaped form of `s` to `out`.
pub fn append_escaped(out: &mut String, s: &str)
    ensures
        final(out)@ == old(out)@ + escaped(s@),
{
    let ghost start = out@;
    let n = s.unicode_len();
    let mut i: usize = 0;
    while i < n
        invariant
            i <= n,
            n == s@.len(),
            out@ == start + escaped(s@.take(i as int)),
        decreases n - i,
    {
        let c = s.get_char(i);
        if c == '&' {
            out.append("&amp;");
        } else if c == '"' {
            out.append("&quot;");
        } else if c == '<' {
            out.append("&lt;");
        } else if c == '>' {
            out.append("&gt;");
        } else {
            push_char(out, c);
        }
        proof {
            assert(s@.take(i + 1).drop_last() =~= s@.take(i as int));
            assert(s@.take(i + 1).last() == c);
        }
        i = i + 1;
    }
    proof {
        assert(s@.take(n as int) =~= s@);
    }
}

/// The escaped form of `s` as a fresh text.
pub fn escape(s: &str) -> (r: String)
    ensures
        r@ == escaped(s@),
{
    let mut out = String::new();
    append_escaped(&mut out, s);
    proof {
        assert(Seq::<char>::empty() + escaped(s@) =~= escaped(s@));
    }
    out
}

} // verus!
