//! Framing of a streamed completion: the provider sends lines `data: <json>`
//! and ends with `data: [DONE]`. The assembler picks out the JSON fragments
//! in order, skips other lines, and stops at the terminator; each decoded
//! fragment then yields its choices' messages.
use vstd::prelude::*;
use crate::steps::first_char_from;
use crate::text::{chars_of, has_prefix, string_of, trim, trim_chars};
use crate::dispatch::opt_view;
use crate::types::{ChatCompletionResponse, FunctionCall, Message};

verus! {

/// What one line of the event feed is.
pub enum StreamLine {
    /// Not an event line: ignored.
    Skip,
    /// The terminator: the feed is over.
    Done,
    /// A JSON fragment to decode.
    Fragment(String),
}

pub open spec fn data_prefix() -> Seq<char> {
    seq!['d', 'a', 't', 'a', ':', ' ']
}

pub open spec fn done_marker() -> Seq<char> {
    seq!['[', 'D', 'O', 'N', 'E', ']']
}

/// A line without a carriage return that ended it.
pub open spec fn strip_cr(line: Seq<char>) -> Seq<char> {
    if line.len() > 0 && line.last() == '\r' {
        line.drop_last()
    } else {
        line
    }
}

/// The kind of a line: `None` to skip it, `Some(None)` for the terminator,
/// `Some(Some(p))` for the fragment `p`.
pub open spec fn line_kind(line: Seq<char>) -> Option<Option<Seq<char>>> {
    if has_prefix(line, data_prefix()) {
        let payload = trim(line.subrange(6, line.len() as int));
        if payload == done_marker() {
            Some(None)
        } else {
            Some(Some(payload))
        }
    } else {
        None
    }
}

/// The fragments of the lines of `s` from `i` on, up to the terminator, and
/// whether the terminator came.
pub open spec fn fragments_from(s: Seq<char>, i: int) -> (Seq<Seq<char>>, bool)
    decreases s.len() - i,
{
    if i < 0 || i >= s.len() {
        (Seq::empty(), false)
    } else {
        let e = first_char_from(s, '\n', i);
        let line = strip_cr(s.subrange(i, e));
        let rest = if i <= e && e < s.len() {
            fragments_from(s, e + 1)
        } else {
            (Seq::empty(), false)
        };
        match line_kind(line) {
            Some(None) => (Seq::empty(), true),
            None => rest,
            Some(Some(p)) => (seq![p] + rest.0, rest.1),
        }
    }
}

fn classify_chars(line: &[char]) -> (r: StreamLine)
    ensures
        match line_kind(line@) {
            None => r is Skip,
            Some(None) => r is Done,
            Some(Some(p)) => r matches StreamLine::Fragment(f) && f@ == p,
        },
{
    let prefix = chars_of("data: ");
    let done = chars_of("[DONE]");
    proof {
        reveal_strlit("data: ");
        reveal_strlit("[DONE]");
        assert(prefix@ =~= data_prefix());
        assert(done@ =~= done_marker());
    }
    if line.len() < 6 {
        return StreamLine::Skip;
    }
    let mut k: usize = 0;
    while k < 6
        invariant
            line@.len() >= 6,
            prefix@ == data_prefix(),
            0 <= k <= 6,
            forall|m: int| 0 <= m < k ==> line@[m] == prefix@[m],
        decreases 6 - k,
    {
        if line[k] != prefix[k] {
            assert(line@.subrange(0, 6)[k as int] != data_prefix()[k as int]);
            return StreamLine::Skip;
        }
        k = k + 1;
    }
    assert(line@.subrange(0, 6) =~= data_prefix());
    let mut rest: Vec<char> = Vec::new();
    let mut i: usize = 6;
    while i < line.len()
        invariant
            6 <= i <= line@.len(),
            rest@ == line@.subrange(6, i as int),
        decreases line@.len() - i,
    {
        rest.push(line[i]);
        i = i + 1;
        assert(rest@ =~= line@.subrange(6, i as int));
    }
    let payload = trim_chars(rest.as_slice());
    if payload.len() == 6 {
        let mut j: usize = 0;
        let mut same = true;
        while j < 6
            invariant
                payload@.len() == 6,
                done@ == done_marker(),
                0 <= j <= 6,
                same == (forall|m: int| 0 <= m < j ==> payload@[m] == done@[m]),
            decreases 6 - j,
        {
            if payload[j] != done[j] {
                same = false;
            }
            j = j + 1;
        }
        if same {
            assert(payload@ =~= done_marker());
            return StreamLine::Done;
        }
        assert(payload@ != done_marker()) by {
            let m = choose|m: int| 0 <= m < 6 && payload@[m] != done@[m];
        }
    }
    StreamLine::Fragment(string_of(payload.as_slice()))
}

/// Classifies one line of the event feed.
pub fn classify_stream_line(line: &str) -> (r: StreamLine)
    ensures
        match line_kind(line@) {
            None => r is Skip,
            Some(None) => r is Done,
            Some(Some(p)) => r matches StreamLine::Fragment(f) && f@ == p,
        },
{
    let v = chars_of(line);
    classify_chars(v.as_slice())
}

proof fn lemma_newline_bound(s: Seq<char>, i: int)
    requires
        0 <= i <= s.len(),
    ensures
        i <= first_char_from(s, '\n', i) <= s.len(),
    decreases s.len() - i,
{
    if i < s.len() && s[i] != '\n' {
        lemma_newline_bound(s, i + 1);
    }
}

/// Splits a chunk of the feed into the JSON fragments of its event lines, in
/// order, up to the terminator; also says whether the terminator came.
pub fn stream_fragments(chunk: &str) -> (r: (Vec<String>, bool))
    ensures
        r.0@.map_values(|f: String| f@) == fragments_from(chunk@, 0).0,
        r.1 == fragments_from(chunk@, 0).1,
{
    let s = chars_of(chunk);
    let mut out: Vec<String> = Vec::new();
    let mut i: usize = 0;
    while i < s.len()
        invariant
            0 <= i <= s@.len(),
            s@ == chunk@,
            fragments_from(s@, 0).0 == out@.map_values(|f: String| f@) + fragments_from(
                s@,
                i as int,
            ).0,
            fragments_from(s@, 0).1 == fragments_from(s@, i as int).1,
        decreases s@.len() - i,
    {
        let mut e: usize = i;
        while e < s.len() && s[e] != '\n'
            invariant
                i <= e <= s@.len(),
                first_char_from(s@, '\n', i as int) == first_char_from(s@, '\n', e as int),
            decreases s@.len() - e,
        {
            e = e + 1;
        }
        proof {
            lemma_newline_bound(s@, i as int);
        }
        let mut line: Vec<char> = Vec::new();
        let mut k: usize = i;
        while k < e
            invariant
                i <= k <= e <= s@.len(),
                line@ == s@.subrange(i as int, k as int),
            decreases e - k,
        {
            line.push(s[k]);
            k = k + 1;
            assert(line@ =~= s@.subrange(i as int, k as int));
        }
        if line.len() > 0 && line[line.len() - 1] == '\r' {
            line.pop();
            assert(line@ =~= strip_cr(s@.subrange(i as int, e as int)));
        }
        let ghost before = out@;
        match classify_chars(line.as_slice()) {
            StreamLine::Done => {
                assert(out@.map_values(|f: String| f@) + Seq::<Seq<char>>::empty() =~= out@.map_values(
                    |f: String| f@,
                ));
                return (out, true);
            },
            StreamLine::Skip => {},
            StreamLine::Fragment(f) => {
                out.push(f);
                proof {
                    assert(out@.map_values(|f: String| f@) =~= before.map_values(|f: String| f@)
                        + seq![f@]);
                    assert(out@.map_values(|f: String| f@) + fragments_from(s@, e + 1).0
                        =~= before.map_values(|f: String| f@) + (seq![f@] + fragments_from(
                        s@,
                        e + 1,
                    ).0));
                }
            },
        }
        if e < s.len() {
            i = e + 1;
        } else {
            i = s.len();
        }
    }
    assert(out@.map_values(|f: String| f@) + Seq::<Seq<char>>::empty() =~= out@.map_values(
        |f: String| f@,
    ));
    (out, false)
}

/// The messages of a decoded fragment: one per choice, in order.
pub fn fragment_messages(fragment: ChatCompletionResponse) -> (r: Vec<Message>)
    ensures
        r@.len() == fragment.choices@.len(),
        forall|k: int| 0 <= k < r@.len() ==> r@[k] == (#[trigger] fragment.choices@[k]).message,
{
    let mut r: Vec<Message> = Vec::new();
    let mut i: usize = 0;
    while i < fragment.choices.len()
        invariant
            0 <= i <= fragment.choices@.len(),
            r@.len() == i,
            forall|k: int| 0 <= k < i ==> r@[k] == (#[trigger] fragment.choices@[k]).message,
        decreases fragment.choices@.len() - i,
    {
        r.push(fragment.choices[i].message.duplicate());
        i = i + 1;
    }
    r
}


/// The parts of a streamed delta that a message takes in: a piece of text,
/// and a function call that replaces the message's own.
pub struct ChunkDelta {
    pub content: Option<String>,
    pub function_call: Option<FunctionCall>,
}

/// Merges a streamed delta into `message`: its text is appended to the
/// content (or becomes the content), its function call replaces the
/// message's; role and name stay.
pub fn merge_chunk_message(message: &mut Message, delta: &ChunkDelta)
    ensures
        final(message).role == old(message).role,
        final(message).name == old(message).name,
        opt_view(final(message).content) == match delta.content {
            None => opt_view(old(message).content),
            Some(piece) => match old(message).content {
                Some(c) => Some(c@ + piece@),
                None => Some(piece@),
            },
        },
        final(message).function_call == match delta.function_call {
            Some(fc) => Some(fc),
            None => old(message).function_call,
        },
{
    if let Some(piece) = &delta.content {
        match &mut message.content {
            Some(existing) => {
                existing.append(piece.as_str());
            },
            None => {
                message.content = Some(piece.clone());
            },
        }
    }
    if let Some(fc) = &delta.function_call {
        message.function_call = Some(fc.duplicate());
    }
}

} // verus!
