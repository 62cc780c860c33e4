//! The step-program markup: locating the block inside an agent's instructions
//! and reading it into an ordered list of steps.
//!
//! The block has the shape
//! `<steps ...> <step number="1" action="run_once" agent="name"><prompt>text</prompt></step> ... </steps>`:
//! attributes may come in any order and are separated by whitespace, `agent`
//! may be left out, unknown attributes are ignored, a repeated one makes the
//! program malformed, and whitespace may stand between elements. A prompt is
//! the raw text up to the next `<`; entity references are not read, so a `&`
//! in a prompt or a value (or a `<` in a value) makes the program malformed.
use vstd::prelude::*;
use crate::error::{SwarmError, SwarmResult};
use crate::text::{
    blank, chars_of, first_solid_from, is_blank_chars, is_ws, is_ws_char, lemma_first_solid_bounds,
    occurs_at, string_of, trim, trim_chars,
};
use crate::types::{Step, Steps};

verus! {

pub open spec fn open_tag() -> Seq<char> {
    seq!['<', 's', 't', 'e', 'p', 's']
}

pub open spec fn close_tag() -> Seq<char> {
    seq!['<', '/', 's', 't', 'e', 'p', 's', '>']
}

pub open spec fn step_open() -> Seq<char> {
    seq!['<', 's', 't', 'e', 'p']
}

pub open spec fn step_close() -> Seq<char> {
    seq!['<', '/', 's', 't', 'e', 'p', '>']
}

pub open spec fn prompt_open() -> Seq<char> {
    seq!['<', 'p', 'r', 'o', 'm', 'p', 't', '>']
}

pub open spec fn prompt_close() -> Seq<char> {
    seq!['<', '/', 'p', 'r', 'o', 'm', 'p', 't', '>']
}

/// A character that continues a name: an ASCII letter, digit or `_`, or any
/// non-ASCII character that is not whitespace.
pub open spec fn is_word(c: char) -> bool {
    ('a' <= c && c <= 'z') || ('A' <= c && c <= 'Z') || ('0' <= c && c <= '9') || c == '_' || (
    c as u32 >= 0x80 && !is_ws(c))
}

/// A tag name ends at any character that does not continue a name.
pub open spec fn ends_name(c: char) -> bool {
    !is_word(c)
}

/// No `&` or `<` stands in `s[a..b]`: entity references are not read, so a
/// `&` makes the markup malformed, as a `<` inside text or a value does.
pub open spec fn plain_text(s: Seq<char>, a: int, b: int) -> bool {
    forall|k: int| a <= k < b ==> s[k] != '&' && s[k] != '<'
}

/// The opening tag of a step program starts at `i`.
pub open spec fn opens_at(s: Seq<char>, i: int) -> bool {
    occurs_at(s, open_tag(), i) && i + 6 < s.len() && ends_name(s[i + 6])
}

/// First index at or after `i` where the opening tag starts, or the length.
pub open spec fn first_open_from(s: Seq<char>, i: int) -> int
    decreases s.len() - i,
{
    if i < 0 || i >= s.len() {
        s.len() as int
    } else if opens_at(s, i) {
        i
    } else {
        first_open_from(s, i + 1)
    }
}

/// First index at or after `i` holding `c`, or the length.
pub open spec fn first_char_from(s: Seq<char>, c: char, i: int) -> int
    decreases s.len() - i,
{
    if i < 0 || i >= s.len() {
        s.len() as int
    } else if s[i] == c {
        i
    } else {
        first_char_from(s, c, i + 1)
    }
}

/// First index at or after `i` where `p` occurs, or the length.
pub open spec fn first_occurrence_from(s: Seq<char>, p: Seq<char>, i: int) -> int
    decreases s.len() - i,
{
    if i < 0 || i >= s.len() {
        s.len() as int
    } else if occurs_at(s, p, i) {
        i
    } else {
        first_occurrence_from(s, p, i + 1)
    }
}

/// Where the step-program block stands in `s`: the first opening tag, the
/// first `>` after it, and the first closing tag after that.
pub open spec fn block_span(s: Seq<char>) -> Option<(int, int)> {
    let a = first_open_from(s, 0);
    if a >= s.len() {
        None
    } else {
        let g = first_char_from(s, '>', a + 6);
        if g >= s.len() {
            None
        } else {
            let c = first_occurrence_from(s, close_tag(), g + 1);
            if c >= s.len() {
                None
            } else {
                Some((a, c + 8))
            }
        }
    }
}

/// What extraction yields for `s`: the instructions without the block, trimmed,
/// and the block itself when there is one.
pub open spec fn extracted(s: Seq<char>) -> (Seq<char>, Option<Seq<char>>) {
    match block_span(s) {
        Some((a, b)) => (trim(s.subrange(0, a) + s.subrange(b, s.len() as int)), Some(s.subrange(a, b))),
        None => (trim(s), None),
    }
}

fn matches_at(s: &[char], p: &[char], i: usize) -> (r: bool)
    ensures
        r == occurs_at(s@, p@, i as int),
{
    if i > s.len() || p.len() > s.len() - i {
        return false;
    }
    let mut k: usize = 0;
    while k < p.len()
        invariant
            i + p@.len() <= s@.len(),
            s@.len() == s.len(),
            0 <= k <= p@.len(),
            forall|m: int| 0 <= m < k ==> s@[i + m] == p@[m],
        decreases p@.len() - k,
    {
        if s[i + k] != p[k] {
            assert(s@.subrange(i as int, i + p@.len())[k as int] != p@[k as int]);
            return false;
        }
        k = k + 1;
    }
    assert(s@.subrange(i as int, i + p@.len()) =~= p@);
    true
}

fn ends_name_char(c: char) -> (r: bool)
    ensures
        r == ends_name(c),
{
    let word = ('a' <= c && c <= 'z') || ('A' <= c && c <= 'Z') || ('0' <= c && c <= '9') || c
        == '_' || (c as u32 >= 0x80 && !is_ws_char(c));
    !word
}

fn span_plain(s: &[char], a: usize, b: usize) -> (r: bool)
    requires
        a <= b <= s@.len(),
    ensures
        r == plain_text(s@, a as int, b as int),
{
    let mut k: usize = a;
    while k < b
        invariant
            a <= k <= b <= s@.len(),
            plain_text(s@, a as int, k as int),
        decreases b - k,
    {
        if s[k] == '&' || s[k] == '<' {
            return false;
        }
        k = k + 1;
    }
    true
}

fn find_open(s: &[char], open: &[char]) -> (r: usize)
    requires
        open@ == open_tag(),
    ensures
        r == first_open_from(s@, 0),
{
    let mut i: usize = 0;
    while i < s.len()
        invariant
            0 <= i <= s@.len(),
            open@ == open_tag(),
            first_open_from(s@, 0) == first_open_from(s@, i as int),
        decreases s@.len() - i,
    {
        if matches_at(s, open, i) && i + 6 < s.len() && ends_name_char(s[i + 6]) {
            return i;
        }
        i = i + 1;
    }
    i
}

fn find_char(s: &[char], c: char, start: usize) -> (r: usize)
    requires
        start <= s@.len(),
    ensures
        r == first_char_from(s@, c, start as int),
        start <= r <= s@.len(),
{
    let mut i: usize = start;
    while i < s.len()
        invariant
            start <= i <= s@.len(),
            first_char_from(s@, c, start as int) == first_char_from(s@, c, i as int),
        decreases s@.len() - i,
    {
        if s[i] == c {
            return i;
        }
        i = i + 1;
    }
    i
}

fn find_occurrence(s: &[char], p: &[char], start: usize) -> (r: usize)
    requires
        start <= s@.len(),
    ensures
        r == first_occurrence_from(s@, p@, start as int),
        start <= r <= s@.len(),
{
    let mut i: usize = start;
    while i < s.len()
        invariant
            start <= i <= s@.len(),
            first_occurrence_from(s@, p@, start as int) == first_occurrence_from(s@, p@, i as int),
        decreases s@.len() - i,
    {
        if matches_at(s, p, i) {
            return i;
        }
        i = i + 1;
    }
    i
}

proof fn lemma_first_open_bound(s: Seq<char>, i: int)
    requires
        0 <= i <= s.len(),
    ensures
        i <= first_open_from(s, i) <= s.len(),
        first_open_from(s, i) < s.len() ==> opens_at(s, first_open_from(s, i)),
    decreases s.len() - i,
{
    if i < s.len() && !opens_at(s, i) {
        lemma_first_open_bound(s, i + 1);
    }
}

proof fn lemma_first_char_bound(s: Seq<char>, c: char, i: int)
    requires
        0 <= i <= s.len(),
    ensures
        i <= first_char_from(s, c, i) <= s.len(),
    decreases s.len() - i,
{
    if i < s.len() && s[i] != c {
        lemma_first_char_bound(s, c, i + 1);
    }
}

proof fn lemma_first_occurrence_bound(s: Seq<char>, p: Seq<char>, i: int)
    requires
        0 <= i <= s.len(),
    ensures
        i <= first_occurrence_from(s, p, i) <= s.len(),
        first_occurrence_from(s, p, i) < s.len() ==> occurs_at(s, p, first_occurrence_from(s, p, i)),
    decreases s.len() - i,
{
    if i < s.len() && !occurs_at(s, p, i) {
        lemma_first_occurrence_bound(s, p, i + 1);
    }
}

proof fn lemma_block_span_bounds(s: Seq<char>)
    ensures
        match block_span(s) {
            Some((a, b)) => 0 <= a < b <= s.len() && occurs_at(s, open_tag(), a) && occurs_at(
                s,
                close_tag(),
                b - 8,
            ),
            None => true,
        },
{
    lemma_first_open_bound(s, 0);
    let a = first_open_from(s, 0);
    if a < s.len() {
        lemma_first_char_bound(s, '>', a + 6);
        let g = first_char_from(s, '>', a + 6);
        if g < s.len() {
            lemma_first_occurrence_bound(s, close_tag(), g + 1);
        }
    }
}

/// Splits `instructions` into the text without its step-program block
/// (trimmed) and the block, if one is present.
pub fn extract_xml_steps(instructions: &str) -> (r: SwarmResult<(String, Option<String>)>)
    ensures
        r is Ok,
        r matches Ok((rest, block)) ==> rest@ == extracted(instructions@).0 && match block {
            Some(b) => extracted(instructions@).1 == Some(b@),
            None => extracted(instructions@).1 is None,
        },
{
    let s = chars_of(instructions);
    let open = chars_of("<steps");
    let close = chars_of("</steps>");
    proof {
        reveal_strlit("<steps");
        reveal_strlit("</steps>");
        assert(open@ =~= open_tag());
        assert(close@ =~= close_tag());
        lemma_block_span_bounds(s@);
        lemma_first_open_bound(s@, 0);
    }
    let a = find_open(s.as_slice(), open.as_slice());
    if a < s.len() {
        proof {
            lemma_first_open_bound(s@, 0);
        }
        let g = find_char(s.as_slice(), '>', a + 6);
        if g < s.len() {
            let c = find_occurrence(s.as_slice(), close.as_slice(), g + 1);
            if c < s.len() {
                proof {
                    lemma_first_occurrence_bound(s@, close_tag(), g + 1);
                }
                let b = c + 8;
                let mut rest: Vec<char> = Vec::new();
                let mut block: Vec<char> = Vec::new();
                let mut i: usize = 0;
                while i < s.len()
                    invariant
                        0 <= a < b <= s@.len(),
                        0 <= i <= s@.len(),
                        rest@ == s@.subrange(0, if i < a { i as int } else { a as int })
                            + s@.subrange(b as int, if i < b { b as int } else { i as int }),
                        block@ == s@.subrange(
                            if i < a { a as int } else { a as int },
                            if i < a { a as int } else if i < b { i as int } else { b as int },
                        ),
                    decreases s@.len() - i,
                {
                    if i < a || i >= b {
                        rest.push(s[i]);
                    } else {
                        block.push(s[i]);
                    }
                    i = i + 1;
                    assert(rest@ =~= s@.subrange(0, if i < a { i as int } else { a as int })
                        + s@.subrange(b as int, if i < b { b as int } else { i as int }));
                    assert(block@ =~= s@.subrange(
                        a as int,
                        if i < a { a as int } else if i < b { i as int } else { b as int },
                    ));
                }
                let trimmed = trim_chars(rest.as_slice());
                return Ok((string_of(trimmed.as_slice()), Some(string_of(block.as_slice()))));
            }
        }
    }
    let trimmed = trim_chars(s.as_slice());
    Ok((string_of(trimmed.as_slice()), None))
}

/// Cutting the block out and putting it back where it stood gives back the
/// whole text; what extraction keeps besides the block is the rest, trimmed.
pub proof fn lemma_extract_round_trip(s: Seq<char>)
    requires
        block_span(s) is Some,
    ensures
        ({
            let (a, b) = block_span(s)->0;
            let prefix = s.subrange(0, a);
            let suffix = s.subrange(b, s.len() as int);
            &&& extracted(s).1 == Some(s.subrange(a, b))
            &&& prefix + extracted(s).1->0 + suffix == s
            &&& extracted(s).0 == trim(prefix + suffix)
        }),
{
    lemma_block_span_bounds(s);
    let (a, b) = block_span(s)->0;
    assert(s.subrange(0, a) + s.subrange(a, b) + s.subrange(b, s.len() as int) =~= s);
}


/// A name of an attribute ends at whitespace, `=`, `>`, `"` or `/`.
pub open spec fn ends_attr_name(c: char) -> bool {
    is_ws(c) || c == '=' || c == '>' || c == '"' || c == '/'
}

pub open spec fn name_end(s: Seq<char>, i: int) -> int
    decreases s.len() - i,
{
    if i < 0 || i >= s.len() {
        s.len() as int
    } else if ends_attr_name(s[i]) {
        i
    } else {
        name_end(s, i + 1)
    }
}

/// The text `s[a..b]` is `lit`.
pub open spec fn span_is(s: Seq<char>, a: int, b: int, lit: Seq<char>) -> bool {
    b - a == lit.len() && occurs_at(s, lit, a)
}

/// An attribute `name = "value"` starting at `j`: the spans of its name and value.
pub open spec fn attr_at(s: Seq<char>, j: int) -> Option<(int, int, int, int)> {
    let ne = name_end(s, j);
    let e = first_solid_from(s, ne);
    if e < s.len() && s[e] == '=' {
        let q = first_solid_from(s, e + 1);
        if q < s.len() && s[q] == '"' {
            let ve = first_char_from(s, '"', q + 1);
            if ve < s.len() && plain_text(s, q + 1, ve) {
                Some((j, ne, q + 1, ve))
            } else {
                None
            }
        } else {
            None
        }
    } else {
        None
    }
}

/// The spans of the `number`, `action` and `agent` values seen so far.
pub type AttrSpans = (Option<(int, int)>, Option<(int, int)>, Option<(int, int)>);

/// The attribute `a` names a value that `acc` already holds.
pub open spec fn repeats(s: Seq<char>, acc: AttrSpans, a: (int, int, int, int)) -> bool {
    let (ns, ne, vs, ve) = a;
    (span_is(s, ns, ne, seq!['n', 'u', 'm', 'b', 'e', 'r']) && acc.0 is Some) || (span_is(
        s,
        ns,
        ne,
        seq!['a', 'c', 't', 'i', 'o', 'n'],
    ) && acc.1 is Some) || (span_is(s, ns, ne, seq!['a', 'g', 'e', 'n', 't']) && acc.2 is Some)
}

pub open spec fn with_attr(s: Seq<char>, acc: AttrSpans, a: (int, int, int, int)) -> AttrSpans {
    let (ns, ne, vs, ve) = a;
    if span_is(s, ns, ne, seq!['n', 'u', 'm', 'b', 'e', 'r']) {
        (Some((vs, ve)), acc.1, acc.2)
    } else if span_is(s, ns, ne, seq!['a', 'c', 't', 'i', 'o', 'n']) {
        (acc.0, Some((vs, ve)), acc.2)
    } else if span_is(s, ns, ne, seq!['a', 'g', 'e', 'n', 't']) {
        (acc.0, acc.1, Some((vs, ve)))
    } else {
        acc
    }
}

/// The attributes of a tag from `i` up to its `>`, and the index after it.
pub open spec fn attrs_from(s: Seq<char>, i: int, acc: AttrSpans) -> Option<(AttrSpans, int)>
    decreases s.len() - i,
{
    if i < 0 || i > s.len() {
        None
    } else {
        let j = first_solid_from(s, i);
        if j >= s.len() {
            None
        } else if s[j] == '>' {
            Some((acc, j + 1))
        } else {
            match attr_at(s, j) {
                None => None,
                Some(a) => {
                    if !repeats(s, acc, a) && i < a.3 + 1 <= s.len() {
                        attrs_from(s, a.3 + 1, with_attr(s, acc, a))
                    } else {
                        None
                    }
                },
            }
        }
    }
}

pub open spec fn is_digit(c: char) -> bool {
    '0' <= c && c <= '9'
}

pub open spec fn digits_value(d: Seq<char>) -> int
    decreases d.len(),
{
    if d.len() == 0 {
        0
    } else {
        digits_value(d.drop_last()) * 10 + (d.last() as int - '0' as int)
    }
}

/// A step number: one or more decimal digits whose value fits a `usize`.
pub open spec fn number_of(d: Seq<char>) -> Option<int> {
    if d.len() > 0 && (forall|k: int| 0 <= k < d.len() ==> is_digit(#[trigger] d[k]))
        && digits_value(d) <= usize::MAX {
        Some(digits_value(d))
    } else {
        None
    }
}

/// A step as plain values: number, action, agent override, prompt.
pub type StepSpec = (int, Seq<char>, Option<Seq<char>>, Seq<char>);

pub open spec fn step_view(st: Step) -> StepSpec {
    (st.number as int, st.action@, match st.agent {
        Some(g) => Some(g@),
        None => None,
    }, st.prompt@)
}

pub open spec fn step_views(st: Seq<Step>) -> Seq<StepSpec> {
    st.map_values(|x: Step| step_view(x))
}

/// One `<step ...><prompt>...</prompt></step>` element at `i`, and the index after it.
#[verifier::opaque]
pub open spec fn step_at(s: Seq<char>, i: int) -> Option<(StepSpec, int)> {
    if !(occurs_at(s, step_open(), i) && i + 5 < s.len() && ends_name(s[i + 5])) {
        None
    } else {
        match attrs_from(s, i + 5, (None, None, None)) {
            None => None,
            Some((acc, p)) => {
                let prompt_at = first_solid_from(s, p);
                let t = first_char_from(s, '<', prompt_at + 8);
                let close_at = first_solid_from(s, t + 9);
                if !occurs_at(s, prompt_open(), prompt_at) || !occurs_at(s, prompt_close(), t)
                    || !occurs_at(s, step_close(), close_at) || !plain_text(s, prompt_at + 8, t) {
                    None
                } else {
                    match (acc.0, acc.1) {
                        (Some(n), Some(a)) => match number_of(s.subrange(n.0, n.1)) {
                            Some(v) => Some(
                                (
                                    (v, s.subrange(a.0, a.1), match acc.2 {
                                        Some(g) => Some(s.subrange(g.0, g.1)),
                                        None => None,
                                    }, s.subrange(prompt_at + 8, t)),
                                    close_at + 7,
                                ),
                            ),
                            None => None,
                        },
                        _ => None,
                    }
                }
            },
        }
    }
}

/// The steps from `i` up to the closing tag, which only whitespace may follow.
pub open spec fn steps_from(s: Seq<char>, i: int) -> Option<Seq<StepSpec>>
    decreases s.len() - i,
{
    if i < 0 || i > s.len() {
        None
    } else {
        let j = first_solid_from(s, i);
        if occurs_at(s, close_tag(), j) {
            if blank(s.subrange(j + 8, s.len() as int)) {
                Some(Seq::empty())
            } else {
                None
            }
        } else {
            match step_at(s, j) {
                None => None,
                Some((st, nx)) => {
                    if i < nx <= s.len() {
                        match steps_from(s, nx) {
                            Some(rest) => Some(seq![st] + rest),
                            None => None,
                        }
                    } else {
                        None
                    }
                },
            }
        }
    }
}

/// The steps that a step-program text holds, or `None` when it is malformed.
pub open spec fn parse_program(s: Seq<char>) -> Option<Seq<StepSpec>> {
    let j = first_solid_from(s, 0);
    if !opens_at(s, j) {
        None
    } else {
        let g = first_char_from(s, '>', j + 6);
        if g >= s.len() {
            None
        } else {
            steps_from(s, g + 1)
        }
    }
}

fn skip_ws(s: &[char], start: usize) -> (r: usize)
    requires
        start <= s@.len(),
    ensures
        r == first_solid_from(s@, start as int),
        start <= r <= s@.len(),
{
    let mut i: usize = start;
    while i < s.len() && is_ws_char(s[i])
        invariant
            start <= i <= s@.len(),
            first_solid_from(s@, start as int) == first_solid_from(s@, i as int),
        decreases s@.len() - i,
    {
        i = i + 1;
    }
    i
}

fn find_name_end(s: &[char], start: usize) -> (r: usize)
    requires
        start <= s@.len(),
    ensures
        r == name_end(s@, start as int),
        start <= r <= s@.len(),
{
    let mut i: usize = start;
    while i < s.len()
        invariant
            start <= i <= s@.len(),
            name_end(s@, start as int) == name_end(s@, i as int),
        decreases s@.len() - i,
    {
        let c = s[i];
        if is_ws_char(c) || c == '=' || c == '>' || c == '"' || c == '/' {
            return i;
        }
        i = i + 1;
    }
    i
}

fn parse_attr(s: &[char], j: usize) -> (r: Option<(usize, usize, usize, usize)>)
    requires
        j <= s@.len(),
    ensures
        match r {
            Some((a, b, c, d)) => attr_at(s@, j as int) == Some(
                (a as int, b as int, c as int, d as int),
            ),
            None => attr_at(s@, j as int) is None,
        },
{
    let ne = find_name_end(s, j);
    let e = skip_ws(s, ne);
    if e < s.len() && s[e] == '=' {
        let q = skip_ws(s, e + 1);
        if q < s.len() && s[q] == '"' {
            let ve = find_char(s, '"', q + 1);
            if ve < s.len() && span_plain(s, q + 1, ve) {
                return Some((j, ne, q + 1, ve));
            }
        }
    }
    None
}

fn span_matches(s: &[char], a: usize, b: usize, lit: &[char]) -> (r: bool)
    requires
        a <= b <= s@.len(),
    ensures
        r == span_is(s@, a as int, b as int, lit@),
{
    b - a == lit.len() && matches_at(s, lit, a)
}

type ExecSpans = (Option<(usize, usize)>, Option<(usize, usize)>, Option<(usize, usize)>);

pub open spec fn span_view(o: Option<(usize, usize)>) -> Option<(int, int)> {
    match o {
        Some((a, b)) => Some((a as int, b as int)),
        None => None,
    }
}

pub open spec fn spans_view(acc: ExecSpans) -> AttrSpans {
    (span_view(acc.0), span_view(acc.1), span_view(acc.2))
}

pub open spec fn spans_in(acc: ExecSpans, n: int) -> bool {
    &&& (acc.0 matches Some((a, b)) ==> a <= b <= n)
    &&& (acc.1 matches Some((a, b)) ==> a <= b <= n)
    &&& (acc.2 matches Some((a, b)) ==> a <= b <= n)
}

proof fn lemma_name_end_bound(s: Seq<char>, i: int)
    requires
        0 <= i <= s.len(),
    ensures
        i <= name_end(s, i) <= s.len(),
    decreases s.len() - i,
{
    if i < s.len() && !ends_attr_name(s[i]) {
        lemma_name_end_bound(s, i + 1);
    }
}

proof fn lemma_attr_bounds(s: Seq<char>, j: int)
    requires
        0 <= j <= s.len(),
    ensures
        attr_at(s, j) matches Some((a, b, c, d)) ==> a == j && a <= b < c <= d < s.len(),
{
    lemma_name_end_bound(s, j);
    let ne = name_end(s, j);
    lemma_first_solid_bounds(s, ne);
    let e = first_solid_from(s, ne);
    if e < s.len() && s[e] == '=' {
        lemma_first_solid_bounds(s, e + 1);
        let q = first_solid_from(s, e + 1);
        if q < s.len() && s[q] == '"' {
            lemma_first_char_bound(s, '"', q + 1);
        }
    }
}

fn parse_attrs(s: &[char], start: usize, lits: &AttrNames) -> (r: Option<(ExecSpans, usize)>)
    requires
        start <= s@.len(),
        lits.wf(),
    ensures
        match r {
            Some((acc, p)) => attrs_from(s@, start as int, (None, None, None)) == Some(
                (spans_view(acc), p as int),
            ) && spans_in(acc, s@.len() as int) && p <= s@.len(),
            None => attrs_from(s@, start as int, (None, None, None)) is None,
        },
{
    let mut acc: ExecSpans = (None, None, None);
    let mut i: usize = start;
    loop
        invariant
            start <= i <= s@.len(),
            lits.wf(),
            spans_in(acc, s@.len() as int),
            attrs_from(s@, start as int, (None, None, None)) == attrs_from(
                s@,
                i as int,
                spans_view(acc),
            ),
        decreases s@.len() - i,
    {
        let j = skip_ws(s, i);
        if j >= s.len() {
            return None;
        }
        if s[j] == '>' {
            return Some((acc, j + 1));
        }
        match parse_attr(s, j) {
            None => {
                return None;
            },
            Some((ns, ne, vs, ve)) => {
                proof {
                    lemma_attr_bounds(s@, j as int);
                }
                if span_matches(s, ns, ne, lits.number.as_slice()) {
                    if acc.0.is_some() {
                        return None;
                    }
                    acc = (Some((vs, ve)), acc.1, acc.2);
                } else if span_matches(s, ns, ne, lits.action.as_slice()) {
                    if acc.1.is_some() {
                        return None;
                    }
                    acc = (acc.0, Some((vs, ve)), acc.2);
                } else if span_matches(s, ns, ne, lits.agent.as_slice()) {
                    if acc.2.is_some() {
                        return None;
                    }
                    acc = (acc.0, acc.1, Some((vs, ve)));
                }
                i = ve + 1;
            },
        }
    }
}

/// The literal tag and attribute names, as characters.
struct AttrNames {
    number: Vec<char>,
    action: Vec<char>,
    agent: Vec<char>,
    step_open: Vec<char>,
    step_close: Vec<char>,
    prompt_open: Vec<char>,
    prompt_close: Vec<char>,
    close: Vec<char>,
}

impl AttrNames {
    spec fn wf(&self) -> bool {
        &&& self.number@ == seq!['n', 'u', 'm', 'b', 'e', 'r']
        &&& self.action@ == seq!['a', 'c', 't', 'i', 'o', 'n']
        &&& self.agent@ == seq!['a', 'g', 'e', 'n', 't']
        &&& self.step_open@ == step_open()
        &&& self.step_close@ == step_close()
        &&& self.prompt_open@ == prompt_open()
        &&& self.prompt_close@ == prompt_close()
        &&& self.close@ == close_tag()
    }

    fn new() -> (r: AttrNames)
        ensures
            r.wf(),
    {
        let r = AttrNames {
            number: chars_of("number"),
            action: chars_of("action"),
            agent: chars_of("agent"),
            step_open: chars_of("<step"),
            step_close: chars_of("</step>"),
            prompt_open: chars_of("<prompt>"),
            prompt_close: chars_of("</prompt>"),
            close: chars_of("</steps>"),
        };
        proof {
            reveal_strlit("number");
            reveal_strlit("action");
            reveal_strlit("agent");
            reveal_strlit("<step");
            reveal_strlit("</step>");
            reveal_strlit("<prompt>");
            reveal_strlit("</prompt>");
            reveal_strlit("</steps>");
            assert(r.number@ =~= seq!['n', 'u', 'm', 'b', 'e', 'r']);
            assert(r.action@ =~= seq!['a', 'c', 't', 'i', 'o', 'n']);
            assert(r.agent@ =~= seq!['a', 'g', 'e', 'n', 't']);
            assert(r.step_open@ =~= step_open());
            assert(r.step_close@ =~= step_close());
            assert(r.prompt_open@ =~= prompt_open());
            assert(r.prompt_close@ =~= prompt_close());
            assert(r.close@ =~= close_tag());
        }
        r
    }
}

fn slice_chars(s: &[char], a: usize, b: usize) -> (r: Vec<char>)
    requires
        a <= b <= s@.len(),
    ensures
        r@ == s@.subrange(a as int, b as int),
{
    let mut r: Vec<char> = Vec::new();
    let mut i: usize = a;
    while i < b
        invariant
            a <= i <= b <= s@.len(),
            r@ == s@.subrange(a as int, i as int),
        decreases b - i,
    {
        r.push(s[i]);
        i = i + 1;
        assert(r@ =~= s@.subrange(a as int, i as int));
    }
    r
}

fn parse_number(d: &[char]) -> (r: Option<usize>)
    ensures
        match r {
            Some(v) => number_of(d@) == Some(v as int),
            None => number_of(d@) is None,
        },
{
    if d.len() == 0 {
        return None;
    }
    let mut v: usize = 0;
    let mut i: usize = 0;
    while i < d.len()
        invariant
            0 <= i <= d@.len(),
            forall|k: int| 0 <= k < i ==> is_digit(#[trigger] d@[k]),
            v as int == digits_value(d@.subrange(0, i as int)),
        decreases d@.len() - i,
    {
        let c = d[i];
        if !('0' <= c && c <= '9') {
            return None;
        }
        let dig: usize = (c as u32 - '0' as u32) as usize;
        proof {
            let t = d@.subrange(0, i as int + 1);
            assert(t.drop_last() =~= d@.subrange(0, i as int));
            assert(digits_value(t) == v * 10 + dig);
        }
        if v > (usize::MAX - dig) / 10 {
            proof {
                lemma_digits_grow(d@, i as int + 1);
                assert(v * 10 + dig > usize::MAX) by (nonlinear_arith)
                    requires
                        v > (usize::MAX - dig) / 10,
                        dig <= 9,
                ;
            }
            return None;
        }
        proof {
            assert(v * 10 + dig <= usize::MAX) by (nonlinear_arith)
                requires
                    v <= (usize::MAX - dig) / 10,
                    dig <= 9,
            ;
        }
        v = v * 10 + dig;
        i = i + 1;
    }
    assert(d@.subrange(0, d@.len() as int) =~= d@);
    Some(v)
}

/// Digits only add to the value of a longer prefix.
proof fn lemma_digits_grow(d: Seq<char>, n: int)
    requires
        0 <= n <= d.len(),
        forall|k: int| 0 <= k < n ==> is_digit(#[trigger] d[k]),
    ensures
        digits_value(d.subrange(0, n)) <= digits_value(d) || (exists|k: int|
            n <= k < d.len() && !is_digit(d[k])),
        digits_value(d.subrange(0, n)) >= 0,
    decreases d.len() - n,
{
    lemma_digits_nonneg(d.subrange(0, n));
    if n < d.len() && is_digit(d[n]) {
        let t = d.subrange(0, n + 1);
        assert(t.drop_last() =~= d.subrange(0, n));
        lemma_digits_grow(d, n + 1);
    } else if n == d.len() {
        assert(d.subrange(0, n) =~= d);
    }
}

proof fn lemma_digits_nonneg(d: Seq<char>)
    requires
        forall|k: int| 0 <= k < d.len() ==> is_digit(#[trigger] d[k]),
    ensures
        digits_value(d) >= 0,
    decreases d.len(),
{
    if d.len() > 0 {
        lemma_digits_nonneg(d.drop_last());
        assert(is_digit(d[d.len() - 1]));
    }
}


fn parse_step(s: &[char], i: usize, lits: &AttrNames) -> (r: Option<(Step, usize)>)
    requires
        i <= s@.len(),
        lits.wf(),
    ensures
        match r {
            Some((st, nx)) => step_at(s@, i as int) == Some((step_view(st), nx as int)),
            None => step_at(s@, i as int) is None,
        },
{
    proof {
        reveal(step_at);
    }
    if !(matches_at(s, lits.step_open.as_slice(), i) && i < s.len() && 5 < s.len() - i
        && ends_name_char(s[i + 5])) {
        return None;
    }
    let (acc, p) = match parse_attrs(s, i + 5, lits) {
        None => {
            return None;
        },
        Some(x) => x,
    };
    let prompt_at = skip_ws(s, p);
    if !matches_at(s, lits.prompt_open.as_slice(), prompt_at) {
        return None;
    }
    let t = find_char(s, '<', prompt_at + 8);
    if !matches_at(s, lits.prompt_close.as_slice(), t) {
        return None;
    }
    let close_at = skip_ws(s, t + 9);
    if !matches_at(s, lits.step_close.as_slice(), close_at) {
        return None;
    }
    if !span_plain(s, prompt_at + 8, t) {
        return None;
    }
    match (acc.0, acc.1) {
        (Some((na, nb)), Some((aa, ab))) => {
            let digits = slice_chars(s, na, nb);
            match parse_number(digits.as_slice()) {
                None => None,
                Some(v) => {
                    let action = string_of(slice_chars(s, aa, ab).as_slice());
                    let agent = match acc.2 {
                        Some((ga, gb)) => Some(string_of(slice_chars(s, ga, gb).as_slice())),
                        None => None,
                    };
                    let prompt = string_of(slice_chars(s, prompt_at + 8, t).as_slice());
                    let st = Step { number: v, action, agent, prompt };
                    Some((st, close_at + 7))
                },
            }
        },
        _ => None,
    }
}

/// Reads a step-program block into its ordered steps.
pub fn parse_steps_from_xml(xml_content: &str) -> (r: SwarmResult<Steps>)
    ensures
        match r {
            Ok(st) => parse_program(xml_content@) == Some(step_views(st.steps@)),
            Err(e) => parse_program(xml_content@) is None && e is XmlError,
        },
{
    let s = chars_of(xml_content);
    let lits = AttrNames::new();
    let open = chars_of("<steps");
    proof {
        reveal_strlit("<steps");
        assert(open@ =~= open_tag());
    }
    let j = skip_ws(s.as_slice(), 0);
    if !(matches_at(s.as_slice(), open.as_slice(), j) && j < s.len() && 6 < s.len() - j && ends_name_char(
        s[j + 6],
    )) {
        return Err(SwarmError::XmlError("Failed to parse XML steps: missing <steps> element".to_string()));
    }
    let g = find_char(s.as_slice(), '>', j + 6);
    if g >= s.len() {
        return Err(SwarmError::XmlError("Failed to parse XML steps: unterminated <steps> tag".to_string()));
    }
    let mut steps: Vec<Step> = Vec::new();
    let mut i: usize = g + 1;
    loop
        invariant
            g + 1 <= i <= s@.len(),
            s@ == xml_content@,
            lits.wf(),
            parse_program(s@) == match steps_from(s@, i as int) {
                Some(rest) => Some(step_views(steps@) + rest),
                None => None,
            },
        decreases s@.len() - i,
    {
        let k = skip_ws(s.as_slice(), i);
        if matches_at(s.as_slice(), lits.close.as_slice(), k) {
            assert(close_tag().len() == 8);
            assert(occurs_at(s@, close_tag(), k as int));
            assert(k + 8 <= s@.len());
            let n = s.len();
            assert(n as int == s@.len());
            if is_blank_chars(slice_chars(s.as_slice(), k + 8, s.len()).as_slice()) {
                proof {
                    assert(step_views(steps@) + Seq::<StepSpec>::empty() =~= step_views(steps@));
                }
                return Ok(Steps { steps });
            }
            return Err(SwarmError::XmlError("Failed to parse XML steps: text after </steps>".to_string()));
        }
        match parse_step(s.as_slice(), k, &lits) {
            None => {
                assert(steps_from(s@, i as int) is None);
                return Err(SwarmError::XmlError("Failed to parse XML steps: malformed <step> element".to_string()));
            },
            Some((st, nx)) => {
                if !(i < nx && nx <= s.len()) {
                    assert(steps_from(s@, i as int) is None);
                    return Err(SwarmError::XmlError("Failed to parse XML steps: malformed <step> element".to_string()));
                }
                let ghost before = steps@;
                steps.push(st);
                proof {
                    assert(step_views(steps@) =~= step_views(before) + seq![step_view(st)]);
                    match steps_from(s@, nx as int) {
                        Some(rest) => {
                            assert(step_views(steps@) + rest =~= step_views(before) + (seq![
                                step_view(st),
                            ] + rest));
                        },
                        None => {},
                    }
                }
                i = nx;
            },
        }
    }
}

} // verus!
