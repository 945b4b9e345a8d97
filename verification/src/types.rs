//! Assembly of the full transcript text from the texts of timed segments.

use vstd::prelude::*;

use crate::text::{is_whitespace, trim, trim_end, trim_start, trimmed};

verus! {

/// The trimmed texts that are not empty, in order.
pub open spec fn kept_pieces(texts: Seq<Seq<char>>) -> Seq<Seq<char>>
    decreases texts.len(),
{
    if texts.len() == 0 {
        Seq::empty()
    } else {
        let rest = kept_pieces(texts.drop_last());
        let t = trimmed(texts.last());
        if t.len() > 0 {
            rest.push(t)
        } else {
            rest
        }
    }
}

/// The pieces joined with single spaces.
pub open spec fn joined(pieces: Seq<Seq<char>>) -> Seq<char>
    decreases pieces.len(),
{
    if pieces.len() == 0 {
        Seq::empty()
    } else if pieces.len() == 1 {
        pieces[0]
    } else {
        joined(pieces.drop_last()) + " "@ + pieces.last()
    }
}

/// The transcript of segment texts: each text trimmed, empty ones dropped,
/// the rest joined with single spaces.
pub open spec fn transcript(texts: Seq<Seq<char>>) -> Seq<char> {
    joined(kept_pieces(texts))
}

/// The character sequences of a list of strings.
pub open spec fn text_views(texts: Seq<String>) -> Seq<Seq<char>> {
    texts.map_values(|t: String| t@)
}

/// Builds the concatenated transcript text from segment texts in order.
pub fn transcript_text(texts: &Vec<String>) -> (s: String)
    ensures
        s@ == transcript(text_views(texts@)),
{
    let ghost views = text_views(texts@);
    let mut out = String::new();
    let mut any = false;
    let mut i: usize = 0;
    while i < texts.len()
        invariant
            views == text_views(texts@),
            i <= texts@.len(),
            out@ == joined(kept_pieces(views.take(i as int))),
            any == (kept_pieces(views.take(i as int)).len() > 0),
        decreases texts@.len() - i,
    {
        let t = trim(texts[i].as_str());
        let ghost prev = kept_pieces(views.take(i as int));
        proof {
            assert(views.take(i + 1).drop_last() =~= views.take(i as int));
            assert(views.take(i + 1).last() == texts@[i as int]@);
        }
        if !t.is_empty() {
            if any {
                out.append(" ");
            }
            out.append(t);
            any = true;
            proof {
                let k = kept_pieces(views.take(i + 1));
                assert(k == prev.push(t@));
                assert(k.drop_last() =~= prev);
                assert(out@ =~= joined(k));
            }
        }
        i = i + 1;
    }
    assert(views.take(texts@.len() as int) =~= views);
    out
}

proof fn lemma_trim_start_head(s: Seq<char>)
    ensures
        trim_start(s).len() == 0 || !is_whitespace(trim_start(s)[0]),
    decreases s.len(),
{
    if s.len() > 0 && is_whitespace(s[0]) {
        lemma_trim_start_head(s.drop_first());
    }
}

proof fn lemma_trim_end_prefix(s: Seq<char>)
    ensures
        trim_end(s).len() <= s.len(),
        forall|i: int| 0 <= i < trim_end(s).len() ==> #[trigger] trim_end(s)[i] == s[i],
        trim_end(s).len() == 0 || !is_whitespace(trim_end(s).last()),
    decreases s.len(),
{
    if s.len() > 0 && is_whitespace(s.last()) {
        lemma_trim_end_prefix(s.drop_last());
    }
}

proof fn lemma_trimmed_ends(s: Seq<char>)
    ensures
        trimmed(s).len() > 0 ==> !is_whitespace(trimmed(s)[0]) && !is_whitespace(
            trimmed(s).last(),
        ),
{
    lemma_trim_start_head(s);
    lemma_trim_end_prefix(trim_start(s));
    if trimmed(s).len() > 0 {
        assert(trimmed(s)[0] == trim_start(s)[0]);
    }
}

proof fn lemma_kept_pieces_clean(texts: Seq<Seq<char>>)
    ensures
        forall|i: int|
            0 <= i < kept_pieces(texts).len() ==> {
                &&& (#[trigger] kept_pieces(texts)[i]).len() > 0
                &&& !is_whitespace(kept_pieces(texts)[i][0])
                &&& !is_whitespace(kept_pieces(texts)[i].last())
            },
    decreases texts.len(),
{
    if texts.len() > 0 {
        let rest = kept_pieces(texts.drop_last());
        let t = trimmed(texts.last());
        lemma_kept_pieces_clean(texts.drop_last());
        lemma_trimmed_ends(texts.last());
        let k = kept_pieces(texts);
        assert forall|i: int| 0 <= i < k.len() implies {
            &&& (#[trigger] k[i]).len() > 0
            &&& !is_whitespace(k[i][0])
            &&& !is_whitespace(k[i].last())
        } by {
            if i < rest.len() {
                assert(k[i] == rest[i]);
            } else {
                assert(k[i] == t);
            }
        }
    }
}

proof fn lemma_joined_ends(pieces: Seq<Seq<char>>)
    requires
        forall|i: int| 0 <= i < pieces.len() ==> (#[trigger] pieces[i]).len() > 0,
    ensures
        pieces.len() > 0 ==> {
            &&& joined(pieces).len() > 0
            &&& joined(pieces)[0] == pieces[0][0]
            &&& joined(pieces).last() == pieces.last().last()
        },
    decreases pieces.len(),
{
    if pieces.len() > 1 {
        let rest = pieces.drop_last();
        assert forall|i: int| 0 <= i < rest.len() implies (#[trigger] rest[i]).len() > 0 by {
            assert(rest[i] == pieces[i]);
        }
        lemma_joined_ends(rest);
        assert(rest[0] == pieces[0]);
    }
}

/// The transcript never starts or ends with whitespace: trimming it gives it back.
pub proof fn lemma_transcript_is_trimmed(texts: Seq<Seq<char>>)
    ensures
        trimmed(transcript(texts)) == transcript(texts),
{
    let k = kept_pieces(texts);
    let s = transcript(texts);
    lemma_kept_pieces_clean(texts);
    assert forall|i: int| 0 <= i < k.len() implies (#[trigger] k[i]).len() > 0 by {}
    lemma_joined_ends(k);
    if k.len() > 0 {
        assert(k[k.len() - 1] == k.last());
        assert(trim_start(s) == s);
        assert(trim_end(s) == s);
    } else {
        assert(s.len() == 0);
        assert(trim_start(s) == s);
        assert(trim_end(s) == s);
    }
}

/// The transcript grows one text at a time: no texts give an empty
/// transcript, and appending a text leaves the transcript unchanged when the
/// text is blank, starts it with the trimmed text when it was empty, and
/// otherwise adds a space and the trimmed text.
pub proof fn lemma_transcript_appends(ts: Seq<Seq<char>>, t: Seq<char>)
    ensures
        transcript(Seq::empty()) == Seq::<char>::empty(),
        transcript(ts.push(t)) == if trimmed(t).len() == 0 {
            transcript(ts)
        } else if transcript(ts).len() == 0 {
            trimmed(t)
        } else {
            transcript(ts) + " "@ + trimmed(t)
        },
{
    let k = kept_pieces(ts);
    assert(ts.push(t).drop_last() =~= ts);
    assert(ts.push(t).last() == t);
    lemma_kept_pieces_clean(ts);
    assert forall|i: int| 0 <= i < k.len() implies (#[trigger] k[i]).len() > 0 by {}
    lemma_joined_ends(k);
    assert(transcript(ts).len() == 0 <==> k.len() == 0);
    if trimmed(t).len() > 0 {
        let k2 = k.push(trimmed(t));
        assert(kept_pieces(ts.push(t)) == k2);
        assert(k2.drop_last() =~= k);
        if k.len() == 0 {
            assert(joined(k2) == k2[0]);
        }
    }
}

} // verus!
