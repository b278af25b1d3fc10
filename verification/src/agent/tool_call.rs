//! Finding a tool call that a model wrote into plain text: a JSON object
//! `{"tool": name, "args": ...}`, on its own, inside a fenced code block, or
//! embedded in prose, possibly missing its closing braces.
use crate::text::{
    chars_of, char_index_from, find_char_from, find_str_from, lemma_char_index_from_bounds,
    lemma_occurrence_from_bounds, occurrence_from, slice_to_vec, trim_bounds, trim_seq,
};
use crate::json::{field, find_field, get_str_field, str_field, JsonValue};
use serde_json::Value;
use vstd::prelude::*;

verus! {

// ---------------------------------------------------------------------------
// Brace scanning
// ---------------------------------------------------------------------------

/// Where the brace scanner stands after reading a prefix of the text.
pub struct ScanState {
    /// Where the outermost open object began, while one is open.
    pub start: Option<int>,
    /// How many objects are open.
    pub depth: nat,
    pub in_string: bool,
    /// The previous character inside a string was a backslash.
    pub escaped: bool,
    /// The closed outermost objects, as `[start, end)` spans.
    pub spans: Seq<(int, int)>,
}

pub open spec fn scan_init() -> ScanState {
    ScanState { start: None, depth: 0, in_string: false, escaped: false, spans: seq![] }
}

/// Reading character `c` at index `idx`: quotes open and close strings (a
/// backslash escapes the next character), braces outside strings open and
/// close objects, and closing the outermost object records its span. A
/// closing brace with nothing open is ignored.
pub open spec fn scan_step(st: ScanState, c: char, idx: int) -> ScanState {
    if st.in_string {
        if st.escaped {
            ScanState { start: st.start, depth: st.depth, in_string: true, escaped: false, spans: st.spans }
        } else if c == '\\' {
            ScanState { start: st.start, depth: st.depth, in_string: true, escaped: true, spans: st.spans }
        } else if c == '"' {
            ScanState { start: st.start, depth: st.depth, in_string: false, escaped: false, spans: st.spans }
        } else {
            st
        }
    } else if c == '"' {
        ScanState { start: st.start, depth: st.depth, in_string: true, escaped: false, spans: st.spans }
    } else if c == '{' {
        ScanState {
            start: if st.depth == 0 { Some(idx) } else { st.start },
            depth: st.depth + 1,
            in_string: false,
            escaped: st.escaped,
            spans: st.spans,
        }
    } else if c == '}' && st.depth > 0 {
        if st.depth == 1 {
            ScanState {
                start: None,
                depth: 0,
                in_string: false,
                escaped: st.escaped,
                spans: match st.start {
                    Some(a) => st.spans.push((a, idx + 1)),
                    None => st.spans,
                },
            }
        } else {
            ScanState {
                start: st.start,
                depth: (st.depth - 1) as nat,
                in_string: false,
                escaped: st.escaped,
                spans: st.spans,
            }
        }
    } else {
        st
    }
}

/// The scanner's state after reading the first `n` characters of `s`.
pub open spec fn scan_prefix(s: Seq<char>, n: int) -> ScanState
    decreases n,
{
    if n <= 0 {
        scan_init()
    } else {
        scan_step(scan_prefix(s, n - 1), s[n - 1], n - 1)
    }
}

/// The spans of the outermost JSON-like objects of `s`, in order; an object
/// still open at the end of the text runs to the end.
pub open spec fn object_spans(s: Seq<char>) -> Seq<(int, int)> {
    let st = scan_prefix(s, s.len() as int);
    match st.start {
        Some(a) => if st.depth > 0 {
            st.spans.push((a, s.len() as int))
        } else {
            st.spans
        },
        None => st.spans,
    }
}

pub open spec fn spans_text(s: Seq<char>, spans: Seq<(int, int)>) -> Seq<Seq<char>> {
    spans.map_values(|p: (int, int)| s.subrange(p.0, p.1))
}

/// The candidate objects of `s`, as text.
pub open spec fn json_candidates_spec(s: Seq<char>) -> Seq<Seq<char>> {
    spans_text(s, object_spans(s))
}

/// Each span lies in `s[..bound]`, starts at a `{`, and the spans come in
/// order without overlapping.
pub open spec fn ordered_object_spans(s: Seq<char>, spans: Seq<(int, int)>, bound: int) -> bool {
    &&& forall|k: int|
        0 <= k < spans.len() ==> 0 <= (#[trigger] spans[k]).0 < spans[k].1 <= bound && s[spans[k].0]
            == '{'
    &&& forall|k: int, l: int| 0 <= k < l < spans.len() ==> (#[trigger] spans[k]).1 <= (#[trigger] spans[l]).0
}

/// What the scanner keeps true: the recorded spans are ordered, each ends with
/// `}`, and an open object begins with `{` after all of them.
pub open spec fn scan_shape(s: Seq<char>, st: ScanState, n: int) -> bool {
    &&& ordered_object_spans(s, st.spans, n)
    &&& forall|k: int| 0 <= k < st.spans.len() ==> s[(#[trigger] st.spans[k]).1 - 1] == '}'
    &&& (st.depth > 0 <==> st.start is Some)
    &&& st.depth <= n
    &&& (st.start matches Some(a) ==> 0 <= a < n && s[a] == '{' && forall|k: int|
        0 <= k < st.spans.len() ==> (#[trigger] st.spans[k]).1 <= a)
}

proof fn lemma_scan_shape(s: Seq<char>, n: int)
    requires
        0 <= n <= s.len(),
    ensures
        scan_shape(s, scan_prefix(s, n), n),
    decreases n,
{
    if n > 0 {
        lemma_scan_shape(s, n - 1);
        let prev = scan_prefix(s, n - 1);
        let next = scan_prefix(s, n);
        assert(next == scan_step(prev, s[n - 1], n - 1));
        if next.spans.len() > prev.spans.len() {
            assert(next.spans =~= prev.spans.push((prev.start->0, n)));
            assert forall|k: int| 0 <= k < next.spans.len() implies s[(#[trigger] next.spans[k]).1 - 1]
                == '}' by {
                if k < prev.spans.len() {
                    assert(next.spans[k] == prev.spans[k]);
                }
            }
            assert forall|k: int, l: int| 0 <= k < l < next.spans.len() implies (
            #[trigger] next.spans[k]).1 <= (#[trigger] next.spans[l]).0 by {
                if l < prev.spans.len() {
                    assert(next.spans[k] == prev.spans[k]);
                    assert(next.spans[l] == prev.spans[l]);
                } else {
                    assert(next.spans[k] == prev.spans[k]);
                }
            }
            assert forall|k: int| 0 <= k < next.spans.len() implies 0 <= (
            #[trigger] next.spans[k]).0 < next.spans[k].1 <= n && s[next.spans[k].0] == '{' by {
                if k < prev.spans.len() {
                    assert(next.spans[k] == prev.spans[k]);
                }
            }
        }
    }
}

/// The spans `object_spans` reports are ordered, begin with `{`, and all but
/// a last one left open at the end of the text end with `}`.
pub proof fn lemma_object_spans_shape(s: Seq<char>)
    ensures
        ordered_object_spans(s, object_spans(s), s.len() as int),
        forall|k: int|
            0 <= k < object_spans(s).len() && (k < object_spans(s).len() - 1 || scan_prefix(
                s,
                s.len() as int,
            ).depth == 0) ==> s[(#[trigger] object_spans(s)[k]).1 - 1] == '}',
{
    lemma_scan_shape(s, s.len() as int);
    let st = scan_prefix(s, s.len() as int);
    if st.depth > 0 {
        let a = st.start->0;
        let sp = object_spans(s);
        assert(sp =~= st.spans.push((a, s.len() as int)));
        assert forall|k: int, l: int| 0 <= k < l < sp.len() implies (#[trigger] sp[k]).1 <= (
        #[trigger] sp[l]).0 by {
            assert(sp[k] == st.spans[k]);
            if l < st.spans.len() {
                assert(sp[l] == st.spans[l]);
            }
        }
        assert forall|k: int| 0 <= k < sp.len() implies 0 <= (#[trigger] sp[k]).0 < sp[k].1 <= s.len()
            && s[sp[k].0] == '{' by {
            if k < st.spans.len() {
                assert(sp[k] == st.spans[k]);
            }
        }
        assert forall|k: int| 0 <= k < sp.len() - 1 implies s[(#[trigger] sp[k]).1 - 1] == '}' by {
            assert(sp[k] == st.spans[k]);
        }
    }
}

/// The object scanned from index `a` on is open (outside any string, at
/// depth 0, before `a`) and stays open after each of the characters
/// `a..j`, for `j` up to `b` (exclusive).
pub open spec fn opened_at(s: Seq<char>, a: int, b: int) -> bool {
    &&& scan_prefix(s, a).depth == 0
    &&& !scan_prefix(s, a).in_string
    &&& forall|j: int| a < j < b ==> (#[trigger] scan_prefix(s, j)).depth > 0
}

/// Each recorded span closes the object it opened: the `}` that ends it
/// brings the depth back to 0; an object still open stays open to `n`.
pub open spec fn scan_balanced(s: Seq<char>, st: ScanState, n: int) -> bool {
    &&& forall|k: int|
        0 <= k < st.spans.len() ==> opened_at(s, (#[trigger] st.spans[k]).0, st.spans[k].1) && scan_prefix(
            s,
            st.spans[k].1,
        ).depth == 0
    &&& (st.start matches Some(a) ==> opened_at(s, a, n + 1))
}

proof fn lemma_scan_balanced(s: Seq<char>, n: int)
    requires
        0 <= n <= s.len(),
    ensures
        scan_balanced(s, scan_prefix(s, n), n),
    decreases n,
{
    lemma_scan_shape(s, n);
    if n > 0 {
        lemma_scan_balanced(s, n - 1);
        lemma_scan_shape(s, n - 1);
        let prev = scan_prefix(s, n - 1);
        let next = scan_prefix(s, n);
        assert(next == scan_step(prev, s[n - 1], n - 1));
        if next.spans.len() > prev.spans.len() {
            let a = prev.start->0;
            assert(next.spans =~= prev.spans.push((a, n)));
            assert forall|k: int| 0 <= k < next.spans.len() implies opened_at(
                s,
                (#[trigger] next.spans[k]).0,
                next.spans[k].1,
            ) && scan_prefix(s, next.spans[k].1).depth == 0 by {
                if k < prev.spans.len() {
                    assert(next.spans[k] == prev.spans[k]);
                }
            }
        } else {
            assert(next.spans == prev.spans);
            if next.start is Some {
                let a = next.start->0;
                if prev.start is Some {
                    assert(prev.start->0 == a);
                } else {
                    assert(a == n - 1);
                }
                assert forall|j: int| a < j < n + 1 implies (#[trigger] scan_prefix(s, j)).depth > 0 by {
                    if j == n {
                        assert(next.depth > 0);
                    }
                }
            }
        }
    }
}

/// Each candidate object is balanced: it opens with a `{` read outside any
/// string at depth 0, stays open (braces inside strings not counted) until
/// its end, and, unless it is a last object left open at the end of the
/// text, its final `}` closes it, back at depth 0.
pub proof fn law_candidates_are_balanced(s: Seq<char>)
    ensures
        forall|k: int|
            0 <= k < object_spans(s).len() ==> opened_at(s, (#[trigger] object_spans(s)[k]).0, object_spans(s)[k].1),
        forall|k: int|
            0 <= k < object_spans(s).len() && (k < object_spans(s).len() - 1 || scan_prefix(
                s,
                s.len() as int,
            ).depth == 0) ==> scan_prefix(s, (#[trigger] object_spans(s)[k]).1).depth == 0,
{
    lemma_scan_balanced(s, s.len() as int);
    lemma_scan_shape(s, s.len() as int);
    let st = scan_prefix(s, s.len() as int);
    let sp = object_spans(s);
    if st.start is Some && st.depth > 0 {
        let a = st.start->0;
        assert(sp =~= st.spans.push((a, s.len() as int)));
        assert forall|k: int| 0 <= k < sp.len() implies opened_at(s, (#[trigger] sp[k]).0, sp[k].1) by {
            if k < st.spans.len() {
                assert(sp[k] == st.spans[k]);
            } else {
                assert(opened_at(s, a, s.len() as int + 1));
            }
        }
        assert forall|k: int| 0 <= k < sp.len() && (k < sp.len() - 1 || st.depth == 0) implies scan_prefix(
            s,
            (#[trigger] sp[k]).1,
        ).depth == 0 by {
            assert(sp[k] == st.spans[k]);
        }
    }
}

/// The spans of the outermost objects of `s` (see `object_spans`).
pub fn object_span_list(s: &[char]) -> (res: Vec<(usize, usize)>)
    ensures
        res@.map_values(|p: (usize, usize)| (p.0 as int, p.1 as int)) == object_spans(s@),
        forall|k: int| 0 <= k < res@.len() ==> (#[trigger] res@[k]).0 <= res@[k].1 <= s@.len(),
{
    let ghost sv = s@;
    let mut start: Option<usize> = None;
    let mut depth: usize = 0;
    let mut in_string = false;
    let mut escaped = false;
    let mut spans: Vec<(usize, usize)> = Vec::new();
    let mut i: usize = 0;
    while i < s.len()
        invariant
            sv == s@,
            i <= s@.len(),
            ({
                let st = scan_prefix(sv, i as int);
                &&& st.depth == depth as nat
                &&& st.in_string == in_string
                &&& st.escaped == escaped
                &&& st.start == (match start {
                    Some(a) => Some(a as int),
                    None => None::<int>,
                })
                &&& st.spans == spans@.map_values(|p: (usize, usize)| (p.0 as int, p.1 as int))
            }),
            depth <= i,
            start matches Some(a) ==> a < i,
            forall|k: int| 0 <= k < spans@.len() ==> (#[trigger] spans@[k]).0 <= spans@[k].1 <= i,
        decreases s@.len() - i,
    {
        let c = s[i];
        let ghost before = spans@;
        if in_string {
            if escaped {
                escaped = false;
            } else if c == '\\' {
                escaped = true;
            } else if c == '"' {
                in_string = false;
            }
        } else if c == '"' {
            in_string = true;
            escaped = false;
        } else if c == '{' {
            if depth == 0 {
                start = Some(i);
            }
            depth = depth + 1;
        } else if c == '}' && depth > 0 {
            if depth == 1 {
                match start {
                    Some(a) => {
                        spans.push((a, i + 1));
                        proof {
                            assert(spans@.map_values(|p: (usize, usize)| (p.0 as int, p.1 as int))
                                =~= before.map_values(|p: (usize, usize)| (p.0 as int, p.1 as int)).push(
                                (a as int, i + 1),
                            ));
                        }
                    },
                    None => {},
                }
                start = None;
                depth = 0;
            } else {
                depth = depth - 1;
            }
        }
        i = i + 1;
        proof {
            assert(scan_prefix(sv, i as int) == scan_step(scan_prefix(sv, i - 1), sv[i - 1], i - 1));
        }
    }
    if depth > 0 {
        match start {
            Some(a) => {
                let ghost before = spans@;
                spans.push((a, s.len()));
                proof {
                    assert(spans@.map_values(|p: (usize, usize)| (p.0 as int, p.1 as int)) =~= before.map_values(
                        |p: (usize, usize)| (p.0 as int, p.1 as int),
                    ).push((a as int, s@.len() as int)));
                }
            },
            None => {},
        }
    }
    spans
}

/// The outermost JSON-like objects of `content`, in order; an object still
/// open at the end of the text is included up to the end, so that a missing
/// closing brace can be repaired.
pub fn json_object_candidates(content: &str) -> (res: Vec<&str>)
    ensures
        res@.map_values(|x: &str| x@) == json_candidates_spec(content@),
{
    let chars = chars_of(content);
    let spans = object_span_list(&chars);
    let ghost sp = spans@.map_values(|p: (usize, usize)| (p.0 as int, p.1 as int));
    let mut out: Vec<&str> = Vec::new();
    let mut k: usize = 0;
    while k < spans.len()
        invariant
            k <= spans@.len(),
            chars@ == content@,
            sp == spans@.map_values(|p: (usize, usize)| (p.0 as int, p.1 as int)),
            sp == object_spans(content@),
            forall|j: int| 0 <= j < spans@.len() ==> (#[trigger] spans@[j]).0 <= spans@[j].1 <= content@.len(),
            out@.map_values(|x: &str| x@) == spans_text(content@, sp.take(k as int)),
        decreases spans@.len() - k,
    {
        let (a, b) = spans[k];
        let piece = content.substring_char(a, b);
        let ghost prev = out@;
        out.push(piece);
        k = k + 1;
        proof {
            assert(sp[k - 1] == (a as int, b as int));
            assert(sp.take(k as int) =~= sp.take(k - 1).push(sp[k - 1]));
            assert(out@ =~= prev.push(piece));
            assert(out@.map_values(|x: &str| x@) =~= prev.map_values(|x: &str| x@).push(piece@));
            assert(spans_text(content@, sp.take(k as int)) =~= spans_text(content@, sp.take(k - 1)).push(
                content@.subrange(a as int, b as int),
            ));
        }
    }
    proof {
        assert(sp.take(spans@.len() as int) =~= sp);
    }
    out
}

// ---------------------------------------------------------------------------
// Fenced code blocks
// ---------------------------------------------------------------------------

pub open spec fn fence() -> Seq<char> {
    seq!['`', '`', '`']
}

/// The non-empty, trimmed bodies of the fenced code blocks of `s` found from
/// index `off` on, in order. A block opens at a fence; its body starts after
/// the next line break (or right after the fence when none follows) and ends
/// at the next fence. An unclosed block ends the search.
pub open spec fn fenced_blocks_from(s: Seq<char>, off: int) -> Seq<Seq<char>>
    decreases s.len() - off,
{
    if off < 0 || off > s.len() {
        seq![]
    } else {
        match occurrence_from(s, fence(), off) {
            None => seq![],
            Some(f) => {
                let body_start = match char_index_from(s, '\n', f + 3) {
                    Some(i) => i + 1,
                    None => f + 3,
                };
                match occurrence_from(s, fence(), body_start) {
                    None => seq![],
                    Some(e) => {
                        proof {
                            lemma_occurrence_from_bounds(s, fence(), off);
                            lemma_char_index_from_bounds(s, '\n', f + 3);
                            lemma_occurrence_from_bounds(s, fence(), body_start);
                        }
                        let block = trim_seq(s.subrange(body_start, e));
                        if block.len() > 0 {
                            seq![block] + fenced_blocks_from(s, e + 3)
                        } else {
                            fenced_blocks_from(s, e + 3)
                        }
                    },
                }
            },
        }
    }
}

pub open spec fn fenced_blocks(s: Seq<char>) -> Seq<Seq<char>> {
    fenced_blocks_from(s, 0)
}

pub open spec fn span_text(s: Seq<char>, blk: Option<(usize, usize)>) -> Seq<Seq<char>> {
    match blk {
        Some(p) => seq![s.subrange(p.0 as int, p.1 as int)],
        None => seq![],
    }
}

/// Reads the next fenced block of `s[off..]`: `None` when there is none,
/// else the span of its trimmed body when that is not empty, and where the
/// text after it starts.
fn next_fenced_block(s: &[char], off: usize) -> (res: Option<(Option<(usize, usize)>, usize)>)
    requires
        off <= s@.len(),
    ensures
        match res {
            None => fenced_blocks_from(s@, off as int) == Seq::<Seq<char>>::empty(),
            Some((blk, next)) => {
                &&& off < next <= s@.len()
                &&& blk matches Some(p) ==> off <= p.0 <= p.1 <= s@.len()
                &&& fenced_blocks_from(s@, off as int) == span_text(s@, blk) + fenced_blocks_from(
                    s@,
                    next as int,
                )
            },
        },
{
    let n = s.len();
    let fence_chars = ['`', '`', '`'];
    proof {
        assert(fence_chars@ =~= fence());
    }
    let f = match find_str_from(s, &fence_chars, off) {
        None => {
            return None;
        },
        Some(f) => f,
    };
    let body_start = match find_char_from(s, '\n', f + 3) {
        Some(i) => i + 1,
        None => f + 3,
    };
    let e = match find_str_from(s, &fence_chars, body_start) {
        None => {
            return None;
        },
        Some(e) => e,
    };
    let inner = slice_to_vec(s, body_start, e);
    let (a, b) = trim_bounds(&inner);
    let next = e + 3;
    proof {
        assert(inner@.subrange(a as int, b as int) =~= s@.subrange(body_start + a, body_start + b));
    }
    if a < b {
        proof {
            assert(span_text(s@, Some(((body_start + a) as usize, (body_start + b) as usize)))
                =~= seq![trim_seq(inner@)]);
        }
        Some((Some((body_start + a, body_start + b)), next))
    } else {
        proof {
            assert(span_text(s@, None) + fenced_blocks_from(s@, next as int) =~= fenced_blocks_from(
                s@,
                next as int,
            ));
        }
        Some((None, next))
    }
}

/// The spans in `s` of its fenced code blocks (see `fenced_blocks`).
pub fn fenced_block_spans(s: &[char]) -> (res: Vec<(usize, usize)>)
    ensures
        spans_text(s@, res@.map_values(|p: (usize, usize)| (p.0 as int, p.1 as int))) == fenced_blocks(s@),
        forall|k: int| 0 <= k < res@.len() ==> (#[trigger] res@[k]).0 <= res@[k].1 <= s@.len(),
{
    let n = s.len();
    let mut out: Vec<(usize, usize)> = Vec::new();
    let mut off: usize = 0;
    loop
        invariant
            n == s@.len(),
            off <= n,
            forall|k: int| 0 <= k < out@.len() ==> (#[trigger] out@[k]).0 <= out@[k].1 <= n,
            spans_text(s@, out@.map_values(|p: (usize, usize)| (p.0 as int, p.1 as int)))
                + fenced_blocks_from(s@, off as int) == fenced_blocks(s@),
        ensures
            forall|k: int| 0 <= k < out@.len() ==> (#[trigger] out@[k]).0 <= out@[k].1 <= n,
            spans_text(s@, out@.map_values(|p: (usize, usize)| (p.0 as int, p.1 as int))) == fenced_blocks(s@),
        decreases n - off,
    {
        let ghost prev = out@;
        let ghost out_text = spans_text(s@, prev.map_values(|p: (usize, usize)| (p.0 as int, p.1 as int)));
        match next_fenced_block(s, off) {
            None => {
                assert(out_text + fenced_blocks_from(s@, off as int) =~= out_text);
                break;
            },
            Some((blk, next)) => {
                match blk {
                    Some((a, b)) => {
                        out.push((a, b));
                        proof {
                            let m = out@.map_values(|p: (usize, usize)| (p.0 as int, p.1 as int));
                            assert(m =~= prev.map_values(|p: (usize, usize)| (p.0 as int, p.1 as int)).push(
                                (a as int, b as int),
                            ));
                            assert(spans_text(s@, m) =~= out_text + span_text(s@, blk));
                        }
                    },
                    None => {
                        assert(out_text + span_text(s@, blk) =~= out_text);
                    },
                }
                off = next;
            },
        }
    }
    out
}

/// The trimmed, non-empty bodies of the fenced code blocks of `content`.
pub fn extract_fenced_code_blocks(content: &str) -> (res: Vec<&str>)
    ensures
        res@.map_values(|x: &str| x@) == fenced_blocks(content@),
{
    let chars = chars_of(content);
    let spans = fenced_block_spans(&chars);
    let ghost sp = spans@.map_values(|p: (usize, usize)| (p.0 as int, p.1 as int));
    let mut out: Vec<&str> = Vec::new();
    let mut k: usize = 0;
    while k < spans.len()
        invariant
            k <= spans@.len(),
            chars@ == content@,
            sp == spans@.map_values(|p: (usize, usize)| (p.0 as int, p.1 as int)),
            spans_text(content@, sp) == fenced_blocks(content@),
            forall|j: int| 0 <= j < spans@.len() ==> (#[trigger] spans@[j]).0 <= spans@[j].1 <= content@.len(),
            out@.map_values(|x: &str| x@) == spans_text(content@, sp.take(k as int)),
        decreases spans@.len() - k,
    {
        let (a, b) = spans[k];
        let piece = content.substring_char(a, b);
        let ghost prev = out@;
        out.push(piece);
        k = k + 1;
        proof {
            assert(sp[k - 1] == (a as int, b as int));
            assert(sp.take(k as int) =~= sp.take(k - 1).push(sp[k - 1]));
            assert(out@ =~= prev.push(piece));
            assert(out@.map_values(|x: &str| x@) =~= prev.map_values(|x: &str| x@).push(piece@));
            assert(spans_text(content@, sp.take(k as int)) =~= spans_text(content@, sp.take(k - 1)).push(
                content@.subrange(a as int, b as int),
            ));
        }
    }
    proof {
        assert(sp.take(spans@.len() as int) =~= sp);
    }
    out
}

// ---------------------------------------------------------------------------
// Parsing and repairing
// ---------------------------------------------------------------------------

/// What `serde_json::from_str` reads in `raw` as a `serde_json::Value`,
/// converted into a `JsonValue`; `None` when `raw` is not JSON.
pub uninterp spec fn json_parse(raw: Seq<char>) -> Option<JsonValue>;

/// Parses `raw` with `serde_json::from_str` into a `serde_json::Value` and
/// converts it one variant for one into a `JsonValue`: a number keeps the
/// text serde_json prints for it, and an object's entries come in the order
/// serde_json's map holds them. Nested values are converted by the same
/// function on their printed text (`Value::to_string`). The contract only
/// names the result: which texts parse, and to what, is not written out.
#[verifier::external_body]
pub(crate) fn parse_json(raw: &str) -> (res: Option<JsonValue>)
    ensures
        res == json_parse(raw@),
{
    let nested = |x: Value| parse_json(&x.to_string());
    Some(match serde_json::from_str::<Value>(raw).ok()? {
        Value::Null => JsonValue::Null,
        Value::Bool(b) => JsonValue::Bool(b),
        Value::Number(n) => JsonValue::Number(n.to_string()),
        Value::String(t) => JsonValue::String(t),
        Value::Array(xs) => JsonValue::Array(xs.into_iter().map(nested).collect::<Option<Vec<_>>>()?),
        Value::Object(m) => JsonValue::Object(
            m.into_iter().map(|(k, x)| Some((k, nested(x)?))).collect::<Option<Vec<_>>>()?,
        ),
    })
}

/// A JSON value read as a tool call: an object with a string `"tool"`, and
/// its `"args"` (null when absent).
pub open spec fn tool_call_spec(v: JsonValue) -> Option<(Seq<char>, JsonValue)> {
    match v {
        JsonValue::Object(es) => match str_field(es@, "tool"@) {
            Some(name) => Some(
                (
                    name,
                    match field(es@, "args"@) {
                        Some(a) => a,
                        None => JsonValue::Null,
                    },
                ),
            ),
            None => None,
        },
        _ => None,
    }
}

/// What a text reads as, as a tool call: its JSON value, read as a tool call.
pub open spec fn json_tool_call(raw: Seq<char>) -> Option<(Seq<char>, JsonValue)> {
    match json_parse(raw) {
        Some(v) => tool_call_spec(v),
        None => None,
    }
}

pub open spec fn call_view(r: Option<(String, JsonValue)>) -> Option<(Seq<char>, JsonValue)> {
    match r {
        Some(p) => Some((p.0@, p.1)),
        None => None,
    }
}

/// The tool name and arguments a JSON value carries, if it is a tool call.
pub fn tool_call_of(v: JsonValue) -> (res: Option<(String, JsonValue)>)
    ensures
        call_view(res) == tool_call_spec(v),
{
    let mut es = match v {
        JsonValue::Object(es) => es,
        _ => {
            return None;
        },
    };
    let ghost ev = es@;
    let name = match get_str_field(&es, "tool") {
        Some(n) => n.to_owned(),
        None => {
            return None;
        },
    };
    let args = match find_field(&es, "args") {
        Some(i) => {
            let (_, a) = es.remove(i);
            proof {
                assert(a == ev[i as int].1);
            }
            a
        },
        None => JsonValue::Null,
    };
    Some((name, args))
}

/// `raw` read as a tool call: parsed as JSON, then read as a tool call.
pub fn try_parse_tool_call(raw: &str) -> (res: Option<(String, JsonValue)>)
    ensures
        call_view(res) == json_tool_call(raw@),
{
    match parse_json(raw) {
        Some(v) => tool_call_of(v),
        None => None,
    }
}

pub open spec fn closing_braces(n: nat) -> Seq<char> {
    Seq::new(n, |i: int| '}')
}

/// The first of `raw` followed by `k`, `k + 1`, ... up to three closing
/// braces that reads as a tool call.
pub open spec fn repaired_call_from(raw: Seq<char>, k: nat) -> Option<(Seq<char>, JsonValue)>
    decreases 4 - k,
{
    if k > 3 {
        None
    } else {
        match json_tool_call(raw + closing_braces(k)) {
            Some(c) => Some(c),
            None => repaired_call_from(raw, k + 1),
        }
    }
}

/// `raw` read as a tool call, as it is or with up to three closing braces
/// added (models often drop the last ones after a long string).
pub open spec fn repaired_tool_call(raw: Seq<char>) -> Option<(Seq<char>, JsonValue)> {
    repaired_call_from(raw, 0)
}

pub fn parse_tool_call_value(raw: &str) -> (res: Option<(String, JsonValue)>)
    ensures
        call_view(res) == repaired_tool_call(raw@),
{
    let first = try_parse_tool_call(raw);
    proof {
        assert(raw@ + closing_braces(0) =~= raw@);
    }
    if first.is_some() {
        return first;
    }
    let mut repaired = raw.to_owned();
    let mut k: usize = 0;
    while k < 3
        invariant
            k <= 3,
            repaired@ == raw@ + closing_braces(k as nat),
            repaired_tool_call(raw@) == repaired_call_from(raw@, (k + 1) as nat),
        decreases 3 - k,
    {
        crate::text::push_char(&mut repaired, '}');
        k = k + 1;
        proof {
            assert(repaired@ =~= raw@ + closing_braces(k as nat));
        }
        let attempt = try_parse_tool_call(repaired.as_str());
        if attempt.is_some() {
            return attempt;
        }
    }
    None
}

/// The texts tried as tool calls, in order: the whole content; then each
/// fenced block followed by the objects inside it; then the objects of the
/// whole content.
pub open spec fn block_candidates(blocks: Seq<Seq<char>>) -> Seq<Seq<char>>
    decreases blocks.len(),
{
    if blocks.len() == 0 {
        seq![]
    } else {
        block_candidates(blocks.drop_last()) + seq![blocks.last()] + json_candidates_spec(blocks.last())
    }
}

pub open spec fn tool_call_candidates_spec(content: Seq<char>) -> Seq<Seq<char>> {
    seq![content] + block_candidates(fenced_blocks(content)) + json_candidates_spec(content)
}

pub fn tool_call_candidates(content: &str) -> (res: Vec<&str>)
    ensures
        res@.map_values(|x: &str| x@) == tool_call_candidates_spec(content@),
{
    let mut out: Vec<&str> = Vec::new();
    out.push(content);
    let blocks = extract_fenced_code_blocks(content);
    let ghost bv = blocks@.map_values(|x: &str| x@);
    proof {
        assert(out@.map_values(|x: &str| x@) =~= seq![content@] + block_candidates(bv.take(0)));
    }
    let mut k: usize = 0;
    while k < blocks.len()
        invariant
            k <= blocks@.len(),
            bv == blocks@.map_values(|x: &str| x@),
            bv == fenced_blocks(content@),
            out@.map_values(|x: &str| x@) == seq![content@] + block_candidates(bv.take(k as int)),
        decreases blocks@.len() - k,
    {
        let b = blocks[k];
        let ghost before = out@.map_values(|x: &str| x@);
        out.push(b);
        let mut inner = json_object_candidates(b);
        let ghost inner_v = inner@.map_values(|x: &str| x@);
        let ghost pushed = out@;
        out.append(&mut inner);
        k = k + 1;
        proof {
            assert(bv.take(k as int).drop_last() =~= bv.take(k - 1));
            assert(bv.take(k as int).last() == b@);
            assert(pushed.map_values(|x: &str| x@) =~= before.push(b@));
            assert(out@.map_values(|x: &str| x@) =~= pushed.map_values(|x: &str| x@) + inner_v);
            assert(seq![content@] + block_candidates(bv.take(k as int)) =~= before.push(b@) + inner_v);
        }
    }
    let mut tail = json_object_candidates(content);
    let ghost tail_v = tail@.map_values(|x: &str| x@);
    let ghost pushed = out@;
    out.append(&mut tail);
    proof {
        assert(bv.take(blocks@.len() as int) =~= bv);
        assert(out@.map_values(|x: &str| x@) =~= pushed.map_values(|x: &str| x@) + tail_v);
    }
    out
}

pub open spec fn first_tool_call_from(cands: Seq<Seq<char>>, k: int) -> Option<(Seq<char>, JsonValue)>
    decreases cands.len() - k,
{
    if k < 0 || k >= cands.len() {
        None
    } else {
        match repaired_tool_call(cands[k]) {
            Some(c) => Some(c),
            None => first_tool_call_from(cands, k + 1),
        }
    }
}

/// The first candidate text (see `tool_call_candidates_spec`) that reads as
/// a tool call, possibly after repair.
pub open spec fn embedded_tool_call(content: Seq<char>) -> Option<(Seq<char>, JsonValue)> {
    first_tool_call_from(tool_call_candidates_spec(content), 0)
}

/// The tool call a model embedded in `content`: its tool name and its arguments.
pub fn extract_embedded_tool_call(content: &str) -> (res: Option<(String, JsonValue)>)
    ensures
        call_view(res) == embedded_tool_call(content@),
{
    let cands = tool_call_candidates(content);
    let ghost cv = cands@.map_values(|x: &str| x@);
    let mut k: usize = 0;
    while k < cands.len()
        invariant
            k <= cands@.len(),
            cv == cands@.map_values(|x: &str| x@),
            cv == tool_call_candidates_spec(content@),
            embedded_tool_call(content@) == first_tool_call_from(cv, k as int),
        decreases cands@.len() - k,
    {
        let r = parse_tool_call_value(cands[k]);
        if r.is_some() {
            return r;
        }
        k = k + 1;
    }
    None
}

} // verus!
