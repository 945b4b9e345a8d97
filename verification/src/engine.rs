//! Decisions of a transcription request: input validation, the language
//! parameter handed to Whisper, the detected language, and the checked
//! collection of timed segments that Whisper produced.

use vstd::prelude::*;

use crate::error::{Error, ErrorView, result_view};
use crate::text::{chars_of, push_signed_decimal, signed_decimal};

verus! {

/// The language parameter handed to Whisper: `"auto"` to detect, or the
/// forced code; `None` when the code holds a null byte (which Whisper
/// cannot take).
pub open spec fn language_choice(language: Option<Seq<char>>) -> Result<Seq<char>, ErrorView> {
    match language {
        None => Ok("auto"@),
        Some(l) => if l.contains('\0') {
            Err(ErrorView::InvalidConfig("language must not contain null bytes"@))
        } else {
            Ok(l)
        },
    }
}

/// The view of an optional borrowed string.
pub open spec fn opt_str_view(s: Option<&str>) -> Option<Seq<char>> {
    match s {
        Some(l) => Some(l@),
        None => None,
    }
}

/// The view of a result carrying borrowed text.
pub open spec fn str_result_view(r: Result<&str, Error>) -> Result<Seq<char>, ErrorView> {
    match r {
        Ok(s) => Ok(s@),
        Err(e) => Err(e@),
    }
}

fn has_null(s: &str) -> (b: bool)
    ensures
        b == s@.contains('\0'),
{
    let cs = chars_of(s);
    let mut i: usize = 0;
    while i < cs.len()
        invariant
            cs@ == s@,
            i <= cs@.len(),
            forall|j: int| 0 <= j < i ==> s@[j] != '\0',
        decreases cs@.len() - i,
    {
        if cs[i] == '\0' {
            assert(s@[i as int] == '\0');
            return true;
        }
        i = i + 1;
    }
    false
}

/// Returns the language string for Whisper, rejecting null bytes.
pub fn language_param<'a>(language: Option<&'a str>) -> (r: Result<&'a str, Error>)
    ensures
        str_result_view(r) == language_choice(opt_str_view(language)),
{
    match language {
        None => Ok("auto"),
        Some(lang) => if has_null(lang) {
            Err(Error::InvalidConfig(String::from_str("language must not contain null bytes")))
        } else {
            Ok(lang)
        },
    }
}

/// The message for a thread count below one.
pub open spec fn n_threads_message(n_threads: i32) -> Seq<char> {
    "n_threads must be >= 1, got "@ + signed_decimal(n_threads as int)
}

/// Rejects thread counts below one.
pub fn validate_n_threads(n_threads: i32) -> (r: Result<(), Error>)
    ensures
        result_view(r) == if n_threads < 1 {
            Err::<(), ErrorView>(ErrorView::InvalidConfig(n_threads_message(n_threads)))
        } else {
            Ok(())
        },
{
    if n_threads < 1 {
        let mut m = String::from_str("n_threads must be >= 1, got ");
        push_signed_decimal(&mut m, n_threads as i64);
        return Err(Error::InvalidConfig(m));
    }
    Ok(())
}

/// Checks a request before Whisper runs, in this order: the PCM holds
/// `n_samples` samples (which must not be zero), `n_threads` must be at
/// least one, and the language must not hold a null byte. Gives the language
/// parameter for Whisper.
pub fn validate_transcribe_input<'a>(n_samples: usize, n_threads: i32, language: Option<&'a str>) -> (r:
    Result<&'a str, Error>)
    ensures
        str_result_view(r) == if n_samples == 0 {
            Err::<Seq<char>, ErrorView>(ErrorView::InvalidConfig("audio samples must not be empty"@))
        } else if n_threads < 1 {
            Err(ErrorView::InvalidConfig(n_threads_message(n_threads)))
        } else {
            language_choice(opt_str_view(language))
        },
{
    if n_samples == 0 {
        return Err(Error::InvalidConfig(String::from_str("audio samples must not be empty")));
    }
    match validate_n_threads(n_threads) {
        Err(e) => Err(e),
        Ok(()) => language_param(language),
    }
}

/// The message for a segment that ends before it starts.
pub open spec fn end_before_start_message(index: int, start: i64, end: i64) -> Seq<char> {
    "segment "@ + signed_decimal(index) + " has end before start: start="@ + signed_decimal(
        start as int,
    ) + ", end="@ + signed_decimal(end as int)
}

/// The message for a segment that starts before the previous one.
pub open spec fn starts_before_message(index: int, start: i64, prev: i64) -> Seq<char> {
    "segment "@ + signed_decimal(index) + " starts before previous segment: start="@
        + signed_decimal(start as int) + ", prev_start="@ + signed_decimal(prev as int)
}

/// Why the centisecond times of segment `index` are inconsistent, if they are.
pub open spec fn segment_times_error(index: int, start: i64, end: i64, prev_start: Option<i64>) -> Option<
    ErrorView,
> {
    if end < start {
        Some(ErrorView::Transcription(end_before_start_message(index, start, end)))
    } else {
        match prev_start {
            Some(prev) => if start < prev {
                Some(ErrorView::Transcription(starts_before_message(index, start, prev)))
            } else {
                None
            },
            None => None,
        }
    }
}

/// Checks segment centisecond times for end-before-start and non-monotonic starts.
pub fn validate_segment_times(index: i32, start: i64, end: i64, prev_start: Option<i64>) -> (r:
    Result<(), Error>)
    ensures
        result_view(r) == match segment_times_error(index as int, start, end, prev_start) {
            Some(e) => Err::<(), ErrorView>(e),
            None => Ok(()),
        },
{
    if end < start {
        let mut m = String::from_str("segment ");
        push_signed_decimal(&mut m, index as i64);
        m.append(" has end before start: start=");
        push_signed_decimal(&mut m, start);
        m.append(", end=");
        push_signed_decimal(&mut m, end);
        return Err(Error::Transcription(m));
    }
    if let Some(prev) = prev_start {
        if start < prev {
            let mut m = String::from_str("segment ");
            push_signed_decimal(&mut m, index as i64);
            m.append(" starts before previous segment: start=");
            push_signed_decimal(&mut m, start);
            m.append(", prev_start=");
            push_signed_decimal(&mut m, prev);
            return Err(Error::Transcription(m));
        }
    }
    Ok(())
}

/// The language reported for a transcription: `"unknown"` for a negative
/// language id, otherwise the code that the id names (`lookup`, Whisper's
/// table entry for the id), and an error when the table has none.
pub fn detected_language(id: i32, lookup: Option<&str>) -> (r: Result<String, Error>)
    ensures
        match r {
            Ok(s) => if id < 0 {
                s@ == "unknown"@
            } else {
                lookup matches Some(l) && s@ == l@
            },
            Err(e) => id >= 0 && lookup is None && e@ == ErrorView::Transcription(
                "unknown language id "@ + signed_decimal(id as int),
            ),
        },
        (id < 0 || lookup is Some) <==> r is Ok,
{
    if id < 0 {
        return Ok(String::from_str("unknown"));
    }
    match lookup {
        Some(code) => Ok(code.to_owned()),
        None => {
            let mut m = String::from_str("unknown language id ");
            push_signed_decimal(&mut m, id as i64);
            Err(Error::Transcription(m))
        },
    }
}

/// One segment as the Whisper backend reports it.
#[derive(Debug, PartialEq, Eq)]
pub struct RawSegment {
    /// Start time in centiseconds.
    pub start_cs: i64,
    /// End time in centiseconds.
    pub end_cs: i64,
    /// The segment text, or the message of the failure to read it.
    pub text: Result<String, String>,
}

/// A checked segment: consistent centisecond times and its text.
#[derive(Debug, Clone, PartialEq, Eq)]
pub struct TimedText {
    /// Start time in centiseconds.
    pub start_cs: i64,
    /// End time in centiseconds.
    pub end_cs: i64,
    /// Transcribed text.
    pub text: String,
}

/// Why segment `i` of `raw` is rejected, given that all before it were accepted.
pub open spec fn segment_error(raw: Seq<Option<RawSegment>>, i: int) -> Option<ErrorView> {
    match raw[i] {
        None => Some(
            ErrorView::Transcription("missing segment at index "@ + signed_decimal(i)),
        ),
        Some(seg) => {
            let prev = if i > 0 {
                match raw[i - 1] {
                    Some(p) => Some(p.start_cs),
                    None => None,
                }
            } else {
                None
            };
            match segment_times_error(i, seg.start_cs, seg.end_cs, prev) {
                Some(e) => Some(e),
                None => match seg.text {
                    Err(m) => Some(ErrorView::Transcription(m@)),
                    Ok(_) => None,
                },
            }
        },
    }
}

/// `out` is the checked copy of the raw segment `raw`.
pub open spec fn copies_segment(out: TimedText, raw: Option<RawSegment>) -> bool {
    &&& raw is Some
    &&& out.start_cs == raw->Some_0.start_cs
    &&& out.end_cs == raw->Some_0.end_cs
    &&& raw->Some_0.text is Ok
    &&& out.text@ == raw->Some_0.text->Ok_0@
}

/// `out` holds, in order, the times and texts of the first `n` segments of `raw`.
pub open spec fn copies_segments(out: Seq<TimedText>, raw: Seq<Option<RawSegment>>, n: int) -> bool {
    &&& out.len() == n
    &&& forall|i: int| 0 <= i < n ==> copies_segment(#[trigger] out[i], raw[i])
}

/// The segments are in order: each ends no earlier than it starts, and
/// starts never decrease.
pub open spec fn segments_ordered(segs: Seq<TimedText>) -> bool {
    &&& forall|i: int| 0 <= i < segs.len() ==> (#[trigger] segs[i]).start_cs <= segs[i].end_cs
    &&& forall|i: int, j: int|
        0 <= i < j < segs.len() ==> (#[trigger] segs[i]).start_cs <= (#[trigger] segs[j]).start_cs
}

/// Collects the `n_segments` segments that Whisper reported (`raw[i]` is
/// segment `i`, `None` where the backend had none), checking their times.
///
/// Fails at the first segment that is missing, ends before it starts,
/// starts before the previous one, or whose text could not be read.
pub fn collect_segments(n_segments: i32, raw: &Vec<Option<RawSegment>>) -> (r: Result<
    Vec<TimedText>,
    Error,
>)
    requires
        n_segments >= 0 ==> raw@.len() == n_segments,
    ensures
        n_segments < 0 ==> r is Err && r->Err_0@ == ErrorView::Transcription(
            "negative segment count from backend"@,
        ),
        n_segments >= 0 ==> (r is Ok <==> forall|i: int|
            0 <= i < raw@.len() ==> #[trigger] segment_error(raw@, i) is None),
        r matches Ok(v) ==> copies_segments(v@, raw@, raw@.len() as int) && segments_ordered(v@),
        r matches Err(e) ==> n_segments < 0 || exists|k: int|
            0 <= k < raw@.len() && (forall|i: int| 0 <= i < k ==> #[trigger] segment_error(raw@, i) is None)
                && segment_error(raw@, k) == Some(e@),
{
    if n_segments < 0 {
        return Err(Error::Transcription(String::from_str("negative segment count from backend")));
    }
    let mut out: Vec<TimedText> = Vec::new();
    let mut prev_start: Option<i64> = None;
    let mut i: usize = 0;
    while i < raw.len()
        invariant
            raw@.len() == n_segments,
            i <= raw@.len(),
            forall|k: int| 0 <= k < i ==> #[trigger] segment_error(raw@, k) is None,
            copies_segments(out@, raw@, i as int),
            segments_ordered(out@),
            prev_start == (if i == 0 {
                None
            } else {
                Some(out@[i - 1].start_cs)
            }),
        decreases raw@.len() - i,
    {
        let index = i as i32;
        match &raw[i] {
            None => {
                let mut m = String::from_str("missing segment at index ");
                push_signed_decimal(&mut m, index as i64);
                assert(segment_error(raw@, i as int) is Some);
                return Err(Error::Transcription(m));
            },
            Some(seg) => {
                let checked = validate_segment_times(index, seg.start_cs, seg.end_cs, prev_start);
                match checked {
                    Err(e) => {
                        return Err(e);
                    },
                    Ok(()) => {},
                }
                let text = match &seg.text {
                    Ok(t) => t.clone(),
                    Err(m) => {
                        return Err(Error::Transcription(m.clone()));
                    },
                };
                let ghost before = out@;
                out.push(TimedText { start_cs: seg.start_cs, end_cs: seg.end_cs, text });
                prev_start = Some(seg.start_cs);
                proof {
                    assert(segment_error(raw@, i as int) is None);
                    assert forall|a: int, b: int|
                        0 <= a < b < out@.len() implies (#[trigger] out@[a]).start_cs <= (
                        #[trigger] out@[b]).start_cs by {
                        if b == i {
                            if a < i - 1 {
                                assert(before[a].start_cs <= before[i - 1].start_cs);
                            }
                        } else {
                            assert(out@[a] == before[a]);
                            assert(out@[b] == before[b]);
                        }
                    }
                    assert forall|k: int| 0 <= k < i + 1 implies copies_segment(
                        #[trigger] out@[k],
                        raw@[k],
                    ) by {
                        if k < i {
                            assert(out@[k] == before[k]);
                        }
                    }
                    assert(copies_segments(out@, raw@, i + 1));
                }
            },
        }
        i = i + 1;
    }
    Ok(out)
}

/// A segment's times are rejected exactly when it ends before it starts or
/// starts before the previous segment; any gap between segments is fine.
pub proof fn lemma_segment_times_rule(index: int, start: i64, end: i64, prev_start: Option<i64>)
    ensures
        segment_times_error(index, start, end, prev_start) is None <==> (start <= end && (
        prev_start matches Some(p) ==> p <= start)),
{
}

/// The segments are all accepted exactly when each is present, has readable
/// text and ends no earlier than it starts, and no segment starts before the
/// one before it.
pub proof fn lemma_collect_accepts_exactly_ordered(raw: Seq<Option<RawSegment>>)
    ensures
        (forall|i: int| 0 <= i < raw.len() ==> #[trigger] segment_error(raw, i) is None) <==> {
            &&& forall|i: int|
                0 <= i < raw.len() ==> {
                    &&& (#[trigger] raw[i]) is Some
                    &&& raw[i]->Some_0.text is Ok
                    &&& raw[i]->Some_0.start_cs <= raw[i]->Some_0.end_cs
                }
            &&& forall|i: int|
                0 < i < raw.len() ==> raw[i - 1]->Some_0.start_cs <= (#[trigger] raw[i])->Some_0.start_cs
        },
{
    if forall|i: int| 0 <= i < raw.len() ==> #[trigger] segment_error(raw, i) is None {
        assert forall|i: int| 0 <= i < raw.len() implies {
            &&& (#[trigger] raw[i]) is Some
            &&& raw[i]->Some_0.text is Ok
            &&& raw[i]->Some_0.start_cs <= raw[i]->Some_0.end_cs
        } by {
            assert(segment_error(raw, i) is None);
        }
        assert forall|i: int| 0 < i < raw.len() implies raw[i - 1]->Some_0.start_cs <= (
        #[trigger] raw[i])->Some_0.start_cs by {
            assert(segment_error(raw, i) is None);
            assert(segment_error(raw, i - 1) is None);
        }
    }
    if ({
        &&& forall|i: int|
            0 <= i < raw.len() ==> {
                &&& (#[trigger] raw[i]) is Some
                &&& raw[i]->Some_0.text is Ok
                &&& raw[i]->Some_0.start_cs <= raw[i]->Some_0.end_cs
            }
        &&& forall|i: int|
            0 < i < raw.len() ==> raw[i - 1]->Some_0.start_cs <= (#[trigger] raw[i])->Some_0.start_cs
    }) {
        assert forall|i: int| 0 <= i < raw.len() implies #[trigger] segment_error(raw, i) is None by {
            assert(raw[i] is Some);
            if i > 0 {
                assert(raw[i - 1] is Some);
                assert(raw[i - 1]->Some_0.start_cs <= raw[i]->Some_0.start_cs);
            }
        }
    }
}

} // verus!
