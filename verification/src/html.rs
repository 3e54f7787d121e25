//! The marker substitution engine: a two-level line/span scanner that
//! replaces marker text only outside fenced code blocks and outside inline
//! code spans, and the image-tag injection built on it.
//!
//! The scanner is line-oriented. A fence delimiter line (up to three
//! leading spaces, then three or more identical backticks or tildes) opens
//! a fenced block, unless its info string begins with the pseudo-fence
//! keyword `admonish`; a delimiter line of the same character with a run at
//! least as long closes it. Inside a line, a backtick run opens an inline
//! span that only a run of the same length closes.

use vstd::prelude::*;

use crate::bytes::{contains_bytes, copy_bytes, copy_range, eq_p, lemma_trim_start_p, match_at,
    push_bytes, push_range, spec_contains, spec_match_at, trim_p, trim_start_p, trim_ws_bytes,
    view_opt_bytes, ws_p};
use crate::url::spec_lower;
use crate::util::spec_join;

verus! {

/// Length of the run of `c` bytes starting at `i`.
pub open spec fn spec_run_len(s: Seq<u8>, i: int, c: u8) -> int
    decreases s.len() - i,
{
    if i < 0 || i >= s.len() || s[i] != c {
        0
    } else {
        1 + spec_run_len(s, i + 1, c)
    }
}

/// `spec_run_len` counts exactly the bytes equal to `c` from `i` to the
/// first byte that differs.
pub proof fn lemma_run_len(s: Seq<u8>, i: int, c: u8, k: int)
    requires
        0 <= i <= i + k <= s.len(),
        forall|j: int| i <= j < i + k ==> #[trigger] s[j] == c,
        i + k == s.len() || s[i + k] != c,
    ensures
        spec_run_len(s, i, c) == k,
    decreases k,
{
    if k > 0 {
        lemma_run_len(s, i + 1, c, k - 1);
    }
}

/// The run length is non-negative, stays in bounds, and is positive
/// exactly on a `c` byte.
pub proof fn lemma_run_len_bounds(s: Seq<u8>, i: int, c: u8)
    requires
        0 <= i <= s.len(),
    ensures
        0 <= spec_run_len(s, i, c),
        i + spec_run_len(s, i, c) <= s.len(),
        i < s.len() && s[i] == c ==> spec_run_len(s, i, c) >= 1,
    decreases s.len() - i,
{
    if i < s.len() && s[i] == c {
        lemma_run_len_bounds(s, i + 1, c);
    }
}

/// Index just past the first line: past its newline byte, or the end of
/// the text when the line is unterminated.
pub open spec fn spec_line_end(s: Seq<u8>, i: int) -> int
    decreases s.len() - i,
{
    if i < 0 || i >= s.len() {
        i
    } else if s[i] == 10 {
        i + 1
    } else {
        spec_line_end(s, i + 1)
    }
}

pub proof fn lemma_line_end_bounds(s: Seq<u8>, i: int)
    requires
        0 <= i,
    ensures
        i < s.len() ==> i < spec_line_end(s, i) <= s.len(),
        i >= s.len() ==> spec_line_end(s, i) == i,
    decreases s.len() - i,
{
    if i < s.len() && s[i] != 10 {
        lemma_line_end_bounds(s, i + 1);
    }
}

/// `spec_line_end` is just past the first newline at or after `i`.
pub proof fn lemma_line_end_at(s: Seq<u8>, i: int, k: int)
    requires
        0 <= i <= k <= s.len(),
        forall|j: int| i <= j < k ==> #[trigger] s[j] != 10,
        k == s.len() || s[k] == 10,
    ensures
        spec_line_end(s, i) == if k < s.len() {
            k + 1
        } else {
            k
        },
    decreases k - i,
{
    if i < k {
        lemma_line_end_at(s, i + 1, k);
    }
}

/// Number of leading spaces, capped at three: a fence delimiter may be
/// indented by at most three spaces.
pub open spec fn spec_fence_lead(body: Seq<u8>) -> int {
    if body.len() > 0 && body[0] == 32 {
        if body.len() > 1 && body[1] == 32 {
            if body.len() > 2 && body[2] == 32 {
                3
            } else {
                2
            }
        } else {
            1
        }
    } else {
        0
    }
}

/// Parse of a fence delimiter line: the fence byte (backtick or tilde),
/// the run length (at least three), and the index where the info string
/// begins.
pub open spec fn spec_parse_fence(body: Seq<u8>) -> Option<(u8, int, int)> {
    let lead = spec_fence_lead(body);
    if lead < body.len() && (body[lead] == 96 || body[lead] == 126) {
        let c = body[lead];
        let run = spec_run_len(body, lead, c);
        if run >= 3 {
            Some((c, run, lead + run))
        } else {
            None
        }
    } else {
        None
    }
}

/// The pseudo-fence keyword: `admonish`.
pub open spec fn spec_admonish() -> Seq<u8> {
    seq![97u8, 100u8, 109u8, 111u8, 110u8, 105u8, 115u8, 104u8]
}

/// Does the info string (trimmed, lower-cased) begin with the pseudo-fence
/// keyword? Such a block is ordinary text to the scanner.
pub open spec fn spec_is_admonish(info: Seq<u8>) -> bool {
    spec_match_at(spec_lower(trim_p(info, ws_p())), spec_admonish(), 0)
}

/// Parses a fence delimiter line; `None` for an ordinary line.
pub fn parse_fence(body: &Vec<u8>) -> (r: Option<(u8, usize, usize)>)
    ensures
        match r {
            Some(t) => spec_parse_fence(body@) == Some((t.0, t.1 as int, t.2 as int))
                && t.2 <= body@.len(),
            None => spec_parse_fence(body@).is_none(),
        },
{
    let lead: usize = if body.len() > 0 && body[0] == 32 {
        if body.len() > 1 && body[1] == 32 {
            if body.len() > 2 && body[2] == 32 {
                3
            } else {
                2
            }
        } else {
            1
        }
    } else {
        0
    };
    if lead >= body.len() {
        return None;
    }
    let c = body[lead];
    if c != 96 && c != 126 {
        return None;
    }
    let mut j: usize = lead;
    while j < body.len() && body[j] == c
        invariant
            lead <= j <= body@.len(),
            forall|k: int| lead <= k < j ==> #[trigger] body@[k] == c,
        decreases body@.len() - j,
    {
        j = j + 1;
    }
    proof {
        lemma_run_len(body@, lead as int, c, j - lead);
    }
    if j - lead >= 3 {
        Some((c, j - lead, j))
    } else {
        None
    }
}

/// Does the info string beginning at `info_start` mark a pseudo-fence?
pub fn is_admonish(body: &Vec<u8>, info_start: usize) -> (r: bool)
    requires
        info_start <= body@.len(),
    ensures
        r == spec_is_admonish(body@.skip(info_start as int)),
{
    let info = copy_range(body, info_start, body.len());
    let t = trim_ws_bytes(&info);
    let mut low: Vec<u8> = Vec::new();
    let mut i: usize = 0;
    while i < t.len()
        invariant
            i <= t@.len(),
            low@ == spec_lower(t@.take(i as int)),
        decreases t@.len() - i,
    {
        let b = t[i];
        low.push(if 65 <= b && b <= 90 {
            b + 32
        } else {
            b
        });
        i = i + 1;
        proof {
            assert(low@ =~= spec_lower(t@.take(i as int)));
        }
    }
    proof {
        assert(t@.take(t@.len() as int) =~= t@);
        assert(body@.skip(info_start as int) =~= body@.subrange(
            info_start as int,
            body@.len() as int,
        ));
    }
    let mut kw: Vec<u8> = Vec::new();
    kw.push(97);
    kw.push(100);
    kw.push(109);
    kw.push(111);
    kw.push(110);
    kw.push(105);
    kw.push(115);
    kw.push(104);
    proof {
        assert(kw@ =~= spec_admonish());
    }
    match_at(&low, &kw, 0)
}

/// Marker replacement within one line, outside inline code spans. `open`
/// carries the backtick count of the currently open span. Backtick runs
/// pass through verbatim: a run opens a span, and only a run of the exact
/// same length closes it. Marker text is replaced only while no span is
/// open; the replacement itself is never rescanned.
pub open spec fn spec_line_repl(
    line: Seq<u8>,
    i: int,
    open: Option<int>,
    m: Seq<u8>,
    r: Seq<u8>,
) -> Seq<u8>
    decreases line.len() - i,
    when m.len() > 0
    via spec_line_repl_dec
{
    if i < 0 || i >= line.len() {
        Seq::empty()
    } else if line[i] == 96 {
        let j = i + spec_run_len(line, i, 96);
        let open2: Option<int> = match open {
            None => Some(j - i),
            Some(o) => if o == j - i {
                None
            } else {
                Some(o)
            },
        };
        line.subrange(i, j) + spec_line_repl(line, j, open2, m, r)
    } else if open.is_none() && spec_match_at(line, m, i) {
        r + spec_line_repl(line, i + m.len(), open, m, r)
    } else {
        seq![line[i]] + spec_line_repl(line, i + 1, open, m, r)
    }
}

#[via_fn]
proof fn spec_line_repl_dec(line: Seq<u8>, i: int, open: Option<int>, m: Seq<u8>, r: Seq<u8>) {
    if 0 <= i < line.len() {
        lemma_run_len_bounds(line, i, 96);
    }
}

/// View of an optional machine integer as an optional mathematical one.
pub open spec fn view_opt_usize(o: Option<usize>) -> Option<int> {
    match o {
        Some(n) => Some(n as int),
        None => None,
    }
}

/// One line rewritten: every marker occurrence outside inline code is
/// replaced, backtick delimiters and span contents pass through verbatim.
pub fn replace_line(line: &Vec<u8>, m: &Vec<u8>, r: &Vec<u8>) -> (out: Vec<u8>)
    requires
        m@.len() > 0,
    ensures
        out@ == spec_line_repl(line@, 0, None, m@, r@),
{
    let mut out: Vec<u8> = Vec::new();
    let mut i: usize = 0;
    let mut open: Option<usize> = None;
    while i < line.len()
        invariant
            m@.len() > 0,
            i <= line@.len(),
            spec_line_repl(line@, 0, None, m@, r@) == out@ + spec_line_repl(
                line@,
                i as int,
                view_opt_usize(open),
                m@,
                r@,
            ),
        decreases line@.len() - i,
    {
        let b = line[i];
        let ghost out_before = out@;
        let ghost open_before = view_opt_usize(open);
        if b == 96 {
            let mut j: usize = i;
            while j < line.len() && line[j] == 96
                invariant
                    i <= j <= line@.len(),
                    forall|k: int| i <= k < j ==> #[trigger] line@[k] == 96,
                decreases line@.len() - j,
            {
                j = j + 1;
            }
            proof {
                lemma_run_len(line@, i as int, 96, j - i);
            }
            push_range(&mut out, line, i, j);
            open = match open {
                None => Some(j - i),
                Some(o) => if o == j - i {
                    None
                } else {
                    Some(o)
                },
            };
            proof {
                assert(spec_line_repl(line@, i as int, open_before, m@, r@) == line@.subrange(
                    i as int,
                    j as int,
                ) + spec_line_repl(line@, j as int, view_opt_usize(open), m@, r@));
                assert(out@ + spec_line_repl(line@, j as int, view_opt_usize(open), m@, r@)
                    =~= out_before + spec_line_repl(line@, i as int, open_before, m@, r@));
            }
            i = j;
        } else if open.is_none() && match_at(line, m, i) {
            push_bytes(&mut out, r);
            proof {
                assert(spec_line_repl(line@, i as int, open_before, m@, r@) == r@
                    + spec_line_repl(line@, i + m@.len(), open_before, m@, r@));
                assert(out@ + spec_line_repl(line@, i + m@.len(), open_before, m@, r@)
                    =~= out_before + spec_line_repl(line@, i as int, open_before, m@, r@));
            }
            i = i + m.len();
        } else {
            out.push(b);
            proof {
                assert(spec_line_repl(line@, i as int, open_before, m@, r@) == seq![line@[i as int]]
                    + spec_line_repl(line@, i + 1, open_before, m@, r@));
                assert(out@ + spec_line_repl(line@, i + 1, open_before, m@, r@)
                    =~= out_before + spec_line_repl(line@, i as int, open_before, m@, r@));
            }
            i = i + 1;
        }
    }
    out
}

/// The scanner's per-document state: outside any fence, or inside a fence
/// opened by `n` bytes `c`.
pub ghost enum FenceSt {
    Outside,
    InFence { c: u8, n: int },
}

pub open spec fn st_of(in_fence: bool, c: u8, n: usize) -> FenceSt {
    if in_fence {
        FenceSt::InFence { c, n: n as int }
    } else {
        FenceSt::Outside
    }
}

/// The document rewritten from position `i` in state `st`, line by line.
/// Fence delimiter lines pass through verbatim and switch the state (a
/// pseudo-fence `admonish` block stays ordinary text); lines inside a
/// fence pass through verbatim; every other line goes through the inline
/// span scanner.
pub open spec fn spec_doc_repl(s: Seq<u8>, i: int, st: FenceSt, m: Seq<u8>, r: Seq<u8>) -> Seq<u8>
    decreases s.len() - i,
    when m.len() > 0
    via spec_doc_repl_dec
{
    if i < 0 || i >= s.len() {
        Seq::empty()
    } else {
        let e = spec_line_end(s, i);
        let has_nl = s[e - 1] == 10;
        let body = if has_nl {
            s.subrange(i, e - 1)
        } else {
            s.subrange(i, e)
        };
        let nl: Seq<u8> = if has_nl {
            seq![10u8]
        } else {
            Seq::empty()
        };
        match spec_parse_fence(body) {
            Some((c, run, info_start)) => match st {
                FenceSt::InFence { c: fc, n } => {
                    let st2 = if c == fc && run >= n {
                        FenceSt::Outside
                    } else {
                        st
                    };
                    body + nl + spec_doc_repl(s, e, st2, m, r)
                },
                FenceSt::Outside => {
                    if !spec_is_admonish(body.skip(info_start)) {
                        body + nl + spec_doc_repl(s, e, FenceSt::InFence { c, n: run }, m, r)
                    } else {
                        spec_line_repl(body, 0, None, m, r) + nl + spec_doc_repl(
                            s,
                            e,
                            FenceSt::Outside,
                            m,
                            r,
                        )
                    }
                },
            },
            None => match st {
                FenceSt::InFence { c: fc, n } => body + nl + spec_doc_repl(s, e, st, m, r),
                FenceSt::Outside => spec_line_repl(body, 0, None, m, r) + nl + spec_doc_repl(
                    s,
                    e,
                    FenceSt::Outside,
                    m,
                    r,
                ),
            },
        }
    }
}

#[via_fn]
proof fn spec_doc_repl_dec(s: Seq<u8>, i: int, st: FenceSt, m: Seq<u8>, r: Seq<u8>) {
    if 0 <= i {
        lemma_line_end_bounds(s, i);
    }
}

/// The whole document rewritten, starting outside any fence.
pub open spec fn spec_replace_markers(content: Seq<u8>, m: Seq<u8>, r: Seq<u8>) -> Seq<u8> {
    spec_doc_repl(content, 0, FenceSt::Outside, m, r)
}

/// Replaces `marker` with `replacement` throughout `content`, except
/// inside fenced code blocks and inline code spans; a pseudo-fence
/// `admonish` block is treated as ordinary text. Delimiters themselves
/// always pass through verbatim.
pub fn replace_markers_outside_code(content: &Vec<u8>, marker: &Vec<u8>, replacement: &Vec<u8>)
    -> (out: Vec<u8>)
    requires
        marker@.len() > 0,
    ensures
        out@ == spec_replace_markers(content@, marker@, replacement@),
{
    let mut out: Vec<u8> = Vec::new();
    let mut i: usize = 0;
    let mut in_fence = false;
    let mut fence_char: u8 = 0;
    let mut fence_len: usize = 0;
    while i < content.len()
        invariant
            marker@.len() > 0,
            i <= content@.len(),
            spec_doc_repl(content@, 0, FenceSt::Outside, marker@, replacement@) == out@
                + spec_doc_repl(
                content@,
                i as int,
                st_of(in_fence, fence_char, fence_len),
                marker@,
                replacement@,
            ),
        decreases content@.len() - i,
    {
        let ghost st_before = st_of(in_fence, fence_char, fence_len);
        let ghost out_before = out@;
        let mut k: usize = i;
        while k < content.len() && content[k] != 10
            invariant
                i <= k <= content@.len(),
                forall|j: int| i <= j < k ==> #[trigger] content@[j] != 10,
            decreases content@.len() - k,
        {
            k = k + 1;
        }
        let has_nl = k < content.len();
        let e: usize = if has_nl {
            k + 1
        } else {
            k
        };
        proof {
            lemma_line_end_at(content@, i as int, k as int);
            assert(spec_line_end(content@, i as int) == e as int);
            assert((content@[e - 1] == 10) == has_nl);
        }
        let body = copy_range(content, i, k);
        let ghost nlv: Seq<u8> = if has_nl {
            seq![10u8]
        } else {
            Seq::empty()
        };
        proof {
            assert(body@ == if content@[e - 1] == 10 {
                content@.subrange(i as int, e - 1)
            } else {
                content@.subrange(i as int, e as int)
            });
            assert(body@ + nlv =~= content@.subrange(i as int, e as int));
        }
        match parse_fence(&body) {
            Some((c, run, info_start)) => {
                if in_fence {
                    if c == fence_char && run >= fence_len {
                        in_fence = false;
                        fence_char = 0;
                        fence_len = 0;
                    }
                    push_range(&mut out, content, i, e);
                    proof {
                        assert(spec_doc_repl(content@, i as int, st_before, marker@, replacement@)
                            == body@ + nlv + spec_doc_repl(
                            content@,
                            e as int,
                            st_of(in_fence, fence_char, fence_len),
                            marker@,
                            replacement@,
                        ));
                    }
                } else {
                    if !is_admonish(&body, info_start) {
                        in_fence = true;
                        fence_char = c;
                        fence_len = run;
                        push_range(&mut out, content, i, e);
                        proof {
                            assert(spec_doc_repl(
                                content@,
                                i as int,
                                st_before,
                                marker@,
                                replacement@,
                            ) == body@ + nlv + spec_doc_repl(
                                content@,
                                e as int,
                                st_of(in_fence, fence_char, fence_len),
                                marker@,
                                replacement@,
                            ));
                        }
                    } else {
                        let rep = replace_line(&body, marker, replacement);
                        push_bytes(&mut out, &rep);
                        if has_nl {
                            out.push(10);
                        }
                        proof {
                            assert(out@ =~= out_before + (rep@ + nlv));
                            assert(spec_doc_repl(
                                content@,
                                i as int,
                                st_before,
                                marker@,
                                replacement@,
                            ) == rep@ + nlv + spec_doc_repl(
                                content@,
                                e as int,
                                st_of(in_fence, fence_char, fence_len),
                                marker@,
                                replacement@,
                            ));
                        }
                    }
                }
            },
            None => {
                if in_fence {
                    push_range(&mut out, content, i, e);
                    proof {
                        assert(spec_doc_repl(content@, i as int, st_before, marker@, replacement@)
                            == body@ + nlv + spec_doc_repl(
                            content@,
                            e as int,
                            st_of(in_fence, fence_char, fence_len),
                            marker@,
                            replacement@,
                        ));
                    }
                } else {
                    let rep = replace_line(&body, marker, replacement);
                    push_bytes(&mut out, &rep);
                    if has_nl {
                        out.push(10);
                    }
                    proof {
                        assert(out@ =~= out_before + (rep@ + nlv));
                        assert(spec_doc_repl(content@, i as int, st_before, marker@, replacement@)
                            == rep@ + nlv + spec_doc_repl(
                            content@,
                            e as int,
                            st_of(in_fence, fence_char, fence_len),
                            marker@,
                            replacement@,
                        ));
                    }
                }
            },
        }
        proof {
            assert(out@ + spec_doc_repl(
                content@,
                e as int,
                st_of(in_fence, fence_char, fence_len),
                marker@,
                replacement@,
            ) =~= out_before + spec_doc_repl(content@, i as int, st_before, marker@, replacement@));
        }
        i = e;
    }
    proof {
        assert(spec_doc_repl(
            content@,
            content@.len() as int,
            st_of(in_fence, fence_char, fence_len),
            marker@,
            replacement@,
        ) == Seq::<u8>::empty());
        assert(out@ + Seq::<u8>::empty() =~= out@);
    }
    out
}

/// Plain greedy replacement: every occurrence of `m`, left to right, in a
/// single pass; the replacement is never rescanned.
pub open spec fn spec_replace_all(s: Seq<u8>, m: Seq<u8>, r: Seq<u8>) -> Seq<u8>
    decreases s.len(),
    when m.len() > 0
{
    if s.len() == 0 {
        Seq::empty()
    } else if spec_match_at(s, m, 0) {
        r + spec_replace_all(s.skip(m.len() as int), m, r)
    } else {
        seq![s[0]] + spec_replace_all(s.skip(1), m, r)
    }
}

/// Outside inline code a line with no backtick at all is rewritten by
/// plain greedy replacement: every occurrence of the marker is replaced.
pub proof fn lemma_no_backtick_replace_all(line: Seq<u8>, i: int, m: Seq<u8>, r: Seq<u8>)
    requires
        m.len() > 0,
        0 <= i <= line.len(),
        forall|j: int| 0 <= j < line.len() ==> line[j] != 96,
    ensures
        spec_line_repl(line, i, None, m, r) == spec_replace_all(line.skip(i), m, r),
    decreases line.len() - i,
{
    if i >= line.len() {
        assert(line.skip(i) =~= Seq::<u8>::empty());
    } else {
        let rest = line.skip(i);
        assert(rest.len() == line.len() - i);
        assert(rest[0] == line[i]);
        if spec_match_at(line, m, i) {
            assert(rest.subrange(0, m.len() as int) =~= line.subrange(i, i + m.len()));
            assert(spec_match_at(rest, m, 0));
            lemma_no_backtick_replace_all(line, i + m.len() as int, m, r);
            assert(rest.skip(m.len() as int) =~= line.skip(i + m.len()));
        } else {
            if i + m.len() <= line.len() {
                assert(rest.subrange(0, m.len() as int) =~= line.subrange(i, i + m.len()));
            }
            assert(!spec_match_at(rest, m, 0));
            lemma_no_backtick_replace_all(line, i + 1, m, r);
            assert(rest.skip(1) =~= line.skip(i + 1));
            assert(seq![line[i]] + spec_replace_all(line.skip(i + 1), m, r) =~= seq![rest[0]]
                + spec_replace_all(rest.skip(1), m, r));
        }
    }
}

/// A document of a single plain-text line — no newline, not a fence
/// delimiter — goes through the inline scanner alone, starting outside
/// any span.
pub proof fn lemma_plain_line(line: Seq<u8>, m: Seq<u8>, r: Seq<u8>)
    requires
        m.len() > 0,
        forall|j: int| 0 <= j < line.len() ==> line[j] != 10,
        spec_parse_fence(line).is_none(),
    ensures
        spec_replace_markers(line, m, r) == spec_line_repl(line, 0, None, m, r),
{
    if line.len() == 0 {
    } else {
        lemma_line_end_at(line, 0, line.len() as int);
        assert(spec_line_end(line, 0) == line.len());
        assert(line[line.len() - 1] != 10);
        assert(line.subrange(0, line.len() as int) =~= line);
        assert(spec_doc_repl(line, line.len() as int, FenceSt::Outside, m, r)
            == Seq::<u8>::empty());
        assert(spec_line_repl(line, 0, None, m, r) + Seq::<u8>::empty() + Seq::<u8>::empty()
            =~= spec_line_repl(line, 0, None, m, r));
    }
}

/// End of the first line, at or after `i`, that closes a fence opened by
/// `n` bytes `c`: a delimiter line of the same byte with a run at least as
/// long. `None` when no later line closes the fence.
pub open spec fn spec_close_line_end(s: Seq<u8>, i: int, c: u8, n: int) -> Option<int>
    decreases s.len() - i,
    via spec_close_line_end_dec
{
    if i < 0 || i >= s.len() {
        None
    } else {
        let e = spec_line_end(s, i);
        let body = if s[e - 1] == 10 {
            s.subrange(i, e - 1)
        } else {
            s.subrange(i, e)
        };
        let closes = match spec_parse_fence(body) {
            Some((c2, run, info_start)) => c2 == c && run >= n,
            None => false,
        };
        if closes {
            Some(e)
        } else {
            spec_close_line_end(s, e, c, n)
        }
    }
}

#[via_fn]
proof fn spec_close_line_end_dec(s: Seq<u8>, i: int, c: u8, n: int) {
    if 0 <= i {
        lemma_line_end_bounds(s, i);
    }
}

/// Inside a fence, every line up to and including the closing delimiter
/// passes through verbatim — however many lines and whatever they hold —
/// and scanning resumes outside the fence right after it; a fence that
/// never closes copies the whole rest of the document unchanged.
pub proof fn lemma_fence_verbatim(s: Seq<u8>, i: int, c: u8, n: int, m: Seq<u8>, r: Seq<u8>)
    requires
        m.len() > 0,
        0 <= i <= s.len(),
    ensures
        match spec_close_line_end(s, i, c, n) {
            Some(e) => i < e <= s.len() && spec_doc_repl(s, i, FenceSt::InFence { c, n }, m, r)
                == s.subrange(i, e) + spec_doc_repl(s, e, FenceSt::Outside, m, r),
            None => spec_doc_repl(s, i, FenceSt::InFence { c, n }, m, r) == s.skip(i),
        },
    decreases s.len() - i,
{
    if i >= s.len() {
        assert(s.skip(i) =~= Seq::<u8>::empty());
    } else {
        lemma_line_end_bounds(s, i);
        let e = spec_line_end(s, i);
        let body = if s[e - 1] == 10 {
            s.subrange(i, e - 1)
        } else {
            s.subrange(i, e)
        };
        let nl: Seq<u8> = if s[e - 1] == 10 {
            seq![10u8]
        } else {
            Seq::empty()
        };
        assert(body + nl =~= s.subrange(i, e));
        let closes = match spec_parse_fence(body) {
            Some((c2, run, info_start)) => c2 == c && run >= n,
            None => false,
        };
        if closes {
            assert(spec_doc_repl(s, i, FenceSt::InFence { c, n }, m, r) == body + nl
                + spec_doc_repl(s, e, FenceSt::Outside, m, r));
            assert(body + nl + spec_doc_repl(s, e, FenceSt::Outside, m, r) =~= s.subrange(i, e)
                + spec_doc_repl(s, e, FenceSt::Outside, m, r));
        } else {
            assert(spec_doc_repl(s, i, FenceSt::InFence { c, n }, m, r) == body + nl
                + spec_doc_repl(s, e, FenceSt::InFence { c, n }, m, r));
            lemma_fence_verbatim(s, e, c, n, m, r);
            match spec_close_line_end(s, e, c, n) {
                Some(e2) => {
                    assert(body + nl + (s.subrange(e, e2) + spec_doc_repl(
                        s,
                        e2,
                        FenceSt::Outside,
                        m,
                        r,
                    )) =~= s.subrange(i, e2) + spec_doc_repl(s, e2, FenceSt::Outside, m, r));
                },
                None => {
                    assert(body + nl + s.skip(e) =~= s.skip(i));
                },
            }
        }
    }
}

/// The text of one properly closed fenced block: an opening delimiter of
/// three backticks, one content line, a closing delimiter of three
/// backticks.
pub open spec fn spec_fenced_doc(inner: Seq<u8>) -> Seq<u8> {
    seq![96u8, 96u8, 96u8, 10u8] + inner + seq![10u8, 96u8, 96u8, 96u8]
}

/// A marker inside a properly closed fenced block is never replaced: the
/// whole document passes through substitution unchanged, byte for byte,
/// whatever the marker and the replacement.
pub proof fn lemma_fenced_block_unchanged(inner: Seq<u8>, m: Seq<u8>, r: Seq<u8>)
    requires
        m.len() > 0,
        forall|j: int| 0 <= j < inner.len() ==> inner[j] != 10,
        spec_parse_fence(inner).is_none(),
    ensures
        spec_replace_markers(spec_fenced_doc(inner), m, r) == spec_fenced_doc(inner),
{
    let s = spec_fenced_doc(inner);
    let n = inner.len() as int;
    assert(s.len() == n + 8);
    assert(s[0] == 96 && s[1] == 96 && s[2] == 96 && s[3] == 10);
    assert(forall|j: int| 4 <= j < 4 + n ==> s[j] == inner[j - 4] && #[trigger] s[j] != 10);
    assert(s[4 + n] == 10);
    assert(s[5 + n] == 96 && s[6 + n] == 96 && s[7 + n] == 96);

    // Opening delimiter line.
    lemma_line_end_at(s, 0, 3);
    assert(spec_line_end(s, 0) == 4);
    let body1 = s.subrange(0, 3);
    assert(body1 =~= seq![96u8, 96u8, 96u8]);
    lemma_run_len(body1, 0, 96, 3);
    assert(spec_parse_fence(body1) == Some((96u8, 3int, 3int)));
    assert(body1.skip(3) =~= Seq::<u8>::empty());
    assert(trim_p(Seq::<u8>::empty(), ws_p()) =~= Seq::<u8>::empty());
    assert(spec_lower(Seq::<u8>::empty()) =~= Seq::<u8>::empty());
    assert(!spec_is_admonish(body1.skip(3)));
    assert(spec_doc_repl(s, 0, FenceSt::Outside, m, r) == body1 + seq![10u8] + spec_doc_repl(
        s,
        4,
        FenceSt::InFence { c: 96, n: 3 },
        m,
        r,
    ));

    // Content line: inside the fence, copied verbatim.
    lemma_line_end_at(s, 4, 4 + n);
    assert(spec_line_end(s, 4) == 5 + n);
    let body2 = s.subrange(4, 4 + n);
    assert(body2 =~= inner);
    assert(spec_doc_repl(s, 4, FenceSt::InFence { c: 96, n: 3 }, m, r) == body2 + seq![10u8]
        + spec_doc_repl(s, 5 + n, FenceSt::InFence { c: 96, n: 3 }, m, r));

    // Closing delimiter line, unterminated.
    lemma_line_end_at(s, 5 + n, 8 + n);
    assert(spec_line_end(s, 5 + n) == 8 + n);
    assert(s[7 + n] != 10);
    let body3 = s.subrange(5 + n, 8 + n);
    assert(body3 =~= seq![96u8, 96u8, 96u8]);
    lemma_run_len(body3, 0, 96, 3);
    assert(spec_parse_fence(body3) == Some((96u8, 3int, 3int)));
    assert(spec_doc_repl(s, 8 + n, FenceSt::Outside, m, r) == Seq::<u8>::empty());
    assert(spec_doc_repl(s, 5 + n, FenceSt::InFence { c: 96, n: 3 }, m, r) == body3
        + Seq::<u8>::empty() + Seq::<u8>::empty());

    assert(body1 + seq![10u8] + (body2 + seq![10u8] + (body3 + Seq::<u8>::empty()
        + Seq::<u8>::empty())) =~= s);
}

/// Decimal digits of a non-negative number, most significant first.
pub open spec fn spec_u32_dec(n: int) -> Seq<u8>
    decreases n,
{
    if n < 0 {
        Seq::empty()
    } else if n < 10 {
        seq![(48 + n) as u8]
    } else {
        spec_u32_dec(n / 10) + seq![(48 + n % 10) as u8]
    }
}

/// The decimal digits of `n`.
pub fn u32_dec(n: u32) -> (r: Vec<u8>)
    ensures
        r@ == spec_u32_dec(n as int),
    decreases n,
{
    if n < 10 {
        let mut v: Vec<u8> = Vec::new();
        v.push((n as u8) + 48);
        proof {
            assert(v@ =~= spec_u32_dec(n as int));
        }
        v
    } else {
        let mut v = u32_dec(n / 10);
        v.push(((n % 10) as u8) + 48);
        proof {
            assert(v@ =~= spec_u32_dec(n as int));
        }
        v
    }
}

/// Backslashes turned into forward slashes.
pub open spec fn fwd_byte(b: u8) -> u8 {
    if b == 92 {
        47u8
    } else {
        b
    }
}

pub open spec fn spec_fwd_slashes(s: Seq<u8>) -> Seq<u8> {
    s.map_values(|b: u8| fwd_byte(b))
}

/// Normalization of a relative image source: backslashes become forward
/// slashes; a path without any separator gains a `./` prefix; leading
/// slashes of an absolute-looking path are stripped.
pub open spec fn spec_normalize_rel(rel: Seq<u8>) -> Seq<u8> {
    let fwd = spec_fwd_slashes(rel);
    if !spec_contains(fwd, seq![47u8]) && !spec_match_at(fwd, seq![46u8, 47u8], 0) {
        seq![46u8, 47u8] + fwd
    } else if fwd.len() > 0 && fwd[0] == 47 {
        trim_start_p(fwd, eq_p(47))
    } else {
        fwd
    }
}

fn normalize_rel(rel: &Vec<u8>) -> (r: Vec<u8>)
    ensures
        r@ == spec_normalize_rel(rel@),
{
    let mut fwd: Vec<u8> = Vec::new();
    let mut i: usize = 0;
    while i < rel.len()
        invariant
            i <= rel@.len(),
            fwd@ == spec_fwd_slashes(rel@.take(i as int)),
        decreases rel@.len() - i,
    {
        let b = rel[i];
        fwd.push(if b == 92 {
            47
        } else {
            b
        });
        i = i + 1;
        proof {
            assert(fwd@ =~= spec_fwd_slashes(rel@.take(i as int)));
        }
    }
    proof {
        assert(rel@.take(rel@.len() as int) =~= rel@);
    }
    let mut slash: Vec<u8> = Vec::new();
    slash.push(47);
    let mut dotslash: Vec<u8> = Vec::new();
    dotslash.push(46);
    dotslash.push(47);
    proof {
        assert(slash@ =~= seq![47u8]);
        assert(dotslash@ =~= seq![46u8, 47u8]);
    }
    let has_sep = contains_bytes(&fwd, &slash);
    let dot_pref = match_at(&fwd, &dotslash, 0);
    if !has_sep && !dot_pref {
        let mut r: Vec<u8> = Vec::new();
        r.push(46);
        r.push(47);
        push_bytes(&mut r, &fwd);
        proof {
            assert(r@ =~= seq![46u8, 47u8] + fwd@);
        }
        r
    } else if fwd.len() > 0 && fwd[0] == 47 {
        let mut a: usize = 0;
        while a < fwd.len() && fwd[a] == 47
            invariant
                a <= fwd@.len(),
                forall|j: int| 0 <= j < a ==> #[trigger] fwd@[j] == 47,
            decreases fwd@.len() - a,
        {
            a = a + 1;
        }
        proof {
            lemma_trim_start_p(fwd@, eq_p(47), a as int);
        }
        let r = copy_range(&fwd, a, fwd.len());
        proof {
            assert(fwd@.subrange(a as int, fwd@.len() as int) =~= fwd@.skip(a as int));
        }
        r
    } else {
        fwd
    }
}

/// The cache-busting query: a content identifier appended as `?v=` (or
/// `&v=` when the source already carries a query).
pub open spec fn spec_with_cache_bust(rel: Seq<u8>, bust: Option<Seq<u8>>) -> Seq<u8> {
    match bust {
        None => rel,
        Some(id) => if spec_contains(rel, seq![63u8]) {
            rel + seq![38u8, 118u8, 61u8] + id
        } else {
            rel + seq![63u8, 118u8, 61u8] + id
        },
    }
}

fn with_cache_bust(rel: Vec<u8>, bust: &Option<Vec<u8>>) -> (r: Vec<u8>)
    ensures
        r@ == spec_with_cache_bust(rel@, view_opt_bytes(*bust)),
{
    match bust {
        None => rel,
        Some(id) => {
            let mut q: Vec<u8> = Vec::new();
            q.push(63);
            proof {
                assert(q@ =~= seq![63u8]);
            }
            let has_q = contains_bytes(&rel, &q);
            let mut r = rel;
            if has_q {
                r.push(38);
            } else {
                r.push(63);
            }
            r.push(118);
            r.push(61);
            push_bytes(&mut r, id);
            proof {
                if has_q {
                    assert(r@ =~= rel@ + seq![38u8, 118u8, 61u8] + id@);
                } else {
                    assert(r@ =~= rel@ + seq![63u8, 118u8, 61u8] + id@);
                }
            }
            r
        },
    }
}

pub open spec fn spec_height_label() -> Seq<u8> {
    seq![104u8, 101u8, 105u8, 103u8, 104u8, 116u8, 58u8]
}

pub open spec fn spec_width_label() -> Seq<u8> {
    seq![119u8, 105u8, 100u8, 116u8, 104u8, 58u8]
}

pub open spec fn spec_px() -> Seq<u8> {
    seq![112u8, 120u8]
}

/// The style attribute: ` style="height:Hpx;width:Wpx"`, each item only
/// when its dimension is non-zero, empty when both are zero.
pub open spec fn spec_style_attr(fit_h: u32, fit_w: u32) -> Seq<u8> {
    let ih: Seq<u8> = if fit_h > 0 {
        spec_height_label() + spec_u32_dec(fit_h as int) + spec_px()
    } else {
        Seq::empty()
    };
    let iw: Seq<u8> = if fit_w > 0 {
        spec_width_label() + spec_u32_dec(fit_w as int) + spec_px()
    } else {
        Seq::empty()
    };
    if fit_h == 0 && fit_w == 0 {
        Seq::empty()
    } else {
        let items: Seq<u8> = if fit_h > 0 && fit_w > 0 {
            ih + seq![59u8] + iw
        } else {
            ih + iw
        };
        seq![32u8, 115u8, 116u8, 121u8, 108u8, 101u8, 61u8, 34u8] + items + seq![34u8]
    }
}

pub open spec fn spec_img_open() -> Seq<u8> {
    seq![60u8, 105u8, 109u8, 103u8, 32u8, 115u8, 114u8, 99u8, 61u8, 34u8]
}

pub open spec fn spec_img_alt() -> Seq<u8> {
    seq![34u8, 32u8, 97u8, 108u8, 116u8, 61u8, 34u8, 81u8, 82u8, 32u8, 99u8, 111u8, 100u8, 101u8,
        34u8]
}

pub open spec fn spec_img_close() -> Seq<u8> {
    seq![32u8, 108u8, 111u8, 97u8, 100u8, 105u8, 110u8, 103u8, 61u8, 34u8, 101u8, 97u8, 103u8,
        101u8, 114u8, 34u8, 62u8]
}

/// The injected markup: `<img src="SRC" alt="QR code"STYLE loading="eager">`.
pub open spec fn spec_img_tag(src: Seq<u8>, fit_h: u32, fit_w: u32) -> Seq<u8> {
    spec_img_open() + src + spec_img_alt() + spec_style_attr(fit_h, fit_w) + spec_img_close()
}

/// Builds the injected image markup for a resolved source.
pub fn img_tag(src: &Vec<u8>, fit_h: u32, fit_w: u32) -> (r: Vec<u8>)
    ensures
        r@ == spec_img_tag(src@, fit_h, fit_w),
{
    let mut t: Vec<u8> = Vec::new();
    t.push(60);
    t.push(105);
    t.push(109);
    t.push(103);
    t.push(32);
    t.push(115);
    t.push(114);
    t.push(99);
    t.push(61);
    t.push(34);
    proof {
        assert(t@ =~= spec_img_open());
    }
    push_bytes(&mut t, src);
    let mut alt: Vec<u8> = Vec::new();
    alt.push(34);
    alt.push(32);
    alt.push(97);
    alt.push(108);
    alt.push(116);
    alt.push(61);
    alt.push(34);
    alt.push(81);
    alt.push(82);
    alt.push(32);
    alt.push(99);
    alt.push(111);
    alt.push(100);
    alt.push(101);
    alt.push(34);
    proof {
        assert(alt@ =~= spec_img_alt());
    }
    push_bytes(&mut t, &alt);
    let mut style: Vec<u8> = Vec::new();
    if fit_h > 0 || fit_w > 0 {
        style.push(32);
        style.push(115);
        style.push(116);
        style.push(121);
        style.push(108);
        style.push(101);
        style.push(61);
        style.push(34);
        let ghost style_head = style@;
        proof {
            assert(style_head =~= seq![32u8, 115u8, 116u8, 121u8, 108u8, 101u8, 61u8, 34u8]);
        }
        let ghost ih: Seq<u8> = if fit_h > 0 {
            spec_height_label() + spec_u32_dec(fit_h as int) + spec_px()
        } else {
            Seq::empty()
        };
        let ghost iw: Seq<u8> = if fit_w > 0 {
            spec_width_label() + spec_u32_dec(fit_w as int) + spec_px()
        } else {
            Seq::empty()
        };
        if fit_h > 0 {
            let mut hl: Vec<u8> = Vec::new();
            hl.push(104);
            hl.push(101);
            hl.push(105);
            hl.push(103);
            hl.push(104);
            hl.push(116);
            hl.push(58);
            proof {
                assert(hl@ =~= spec_height_label());
            }
            push_bytes(&mut style, &hl);
            let hd = u32_dec(fit_h);
            push_bytes(&mut style, &hd);
            style.push(112);
            style.push(120);
            proof {
                assert(style@ =~= style_head + ih);
            }
        }
        if fit_h > 0 && fit_w > 0 {
            style.push(59);
        }
        if fit_w > 0 {
            let mut wl: Vec<u8> = Vec::new();
            wl.push(119);
            wl.push(105);
            wl.push(100);
            wl.push(116);
            wl.push(104);
            wl.push(58);
            proof {
                assert(wl@ =~= spec_width_label());
            }
            push_bytes(&mut style, &wl);
            let wd = u32_dec(fit_w);
            push_bytes(&mut style, &wd);
            style.push(112);
            style.push(120);
        }
        style.push(34);
        proof {
            if fit_h > 0 && fit_w > 0 {
                assert(style@ =~= style_head + (ih + seq![59u8] + iw) + seq![34u8]);
            } else {
                assert(style@ =~= style_head + (ih + iw) + seq![34u8]);
            }
            assert(style@ =~= spec_style_attr(fit_h, fit_w));
        }
    }
    proof {
        if fit_h == 0 && fit_w == 0 {
            assert(style@ =~= spec_style_attr(fit_h, fit_w));
        }
    }
    push_bytes(&mut t, &style);
    let mut close: Vec<u8> = Vec::new();
    close.push(32);
    close.push(108);
    close.push(111);
    close.push(97);
    close.push(100);
    close.push(105);
    close.push(110);
    close.push(103);
    close.push(61);
    close.push(34);
    close.push(101);
    close.push(97);
    close.push(103);
    close.push(101);
    close.push(114);
    close.push(34);
    close.push(62);
    proof {
        assert(close@ =~= spec_img_close());
    }
    push_bytes(&mut t, &close);
    proof {
        assert(t@ =~= spec_img_tag(src@, fit_h, fit_w));
    }
    t
}

/// Index of the last `/` in `p`, or -1 when there is none.
pub open spec fn spec_rfind_slash(p: Seq<u8>) -> int
    decreases p.len(),
{
    if p.len() == 0 {
        -1
    } else if p.last() == 47 {
        p.len() - 1
    } else {
        spec_rfind_slash(p.drop_last())
    }
}

pub proof fn lemma_rfind_slash(p: Seq<u8>, k: int)
    requires
        0 <= k <= p.len(),
        forall|j: int| k <= j < p.len() ==> #[trigger] p[j] != 47,
        k == 0 || p[k - 1] == 47,
    ensures
        spec_rfind_slash(p) == k - 1,
    decreases p.len(),
{
    if k < p.len() {
        lemma_rfind_slash(p.drop_last(), k);
    }
}

/// The directory that holds `p`: the text up to the last separator, the
/// empty path for a bare name, the root for a root-level name, nothing for
/// an empty path.
pub open spec fn spec_parent_dir(p: Seq<u8>) -> Option<Seq<u8>> {
    if p.len() == 0 {
        None
    } else {
        let k = spec_rfind_slash(p);
        if k < 0 {
            Some(Seq::empty())
        } else if k == 0 {
            Some(seq![47u8])
        } else {
            Some(p.take(k))
        }
    }
}

fn parent_dir(p: &Vec<u8>) -> (r: Option<Vec<u8>>)
    ensures
        view_opt_bytes(r) == spec_parent_dir(p@),
{
    if p.len() == 0 {
        return None;
    }
    let mut k: usize = p.len();
    while k > 0 && p[k - 1] != 47
        invariant
            k <= p@.len(),
            forall|j: int| k <= j < p@.len() ==> #[trigger] p@[j] != 47,
        decreases k,
    {
        k = k - 1;
    }
    proof {
        lemma_rfind_slash(p@, k as int);
    }
    if k == 0 {
        Some(Vec::new())
    } else if k == 1 {
        let mut r: Vec<u8> = Vec::new();
        r.push(47);
        proof {
            assert(r@ =~= seq![47u8]);
        }
        Some(r)
    } else {
        proof {
            assert(p@.subrange(0, k - 1) =~= p@.take(k - 1));
        }
        Some(copy_range(p, 0, k - 1))
    }
}

/// The shortest relative path from directory `base` to `target`, as the
/// path-difference routine computes it; a function of the two paths alone.
pub uninterp spec fn rel_path_of(target: Seq<u8>, base: Seq<u8>) -> Option<Seq<u8>>;

/// Relies on pathdiff::diff_paths: the relative path from `base` to
/// `target`, computed from the two paths alone. When exactly one side is
/// absolute, the source shows the result directly: the absolute target
/// as it stands (stated here for ASCII paths, which the lossy text
/// conversions in this body keep byte for byte), or nothing.
#[verifier::external_body]
fn rel_path_between(target: &Vec<u8>, base: &Vec<u8>) -> (r: Option<Vec<u8>>)
    ensures
        view_opt_bytes(r) == rel_path_of(target@, base@),
        crate::util::spec_is_absolute(target@) && !crate::util::spec_is_absolute(base@)
            ==> r.is_some(),
        (forall|i: int| 0 <= i < target@.len() ==> target@[i] < 128)
            && crate::util::spec_is_absolute(target@) && !crate::util::spec_is_absolute(base@)
            ==> r.is_some() && r.unwrap()@ == target@,
        !crate::util::spec_is_absolute(target@) && crate::util::spec_is_absolute(base@)
            ==> r.is_none(),
{
    let t = String::from_utf8_lossy(target.as_slice()).into_owned();
    let b = String::from_utf8_lossy(base.as_slice()).into_owned();
    match pathdiff::diff_paths(std::path::Path::new(&t), std::path::Path::new(&b)) {
        Some(p) => Some(p.to_string_lossy().into_owned().into_bytes()),
        None => None,
    }
}

/// The resolved image source for a chapter at `ch_path`: the relative path
/// from the chapter's directory to the image, normalized, with the
/// cache-busting query appended.
pub open spec fn spec_img_src(
    qr_rel: Seq<u8>,
    src_dir: Seq<u8>,
    ch_path: Seq<u8>,
    bust: Option<Seq<u8>>,
) -> Seq<u8> {
    let ch_abs = spec_join(src_dir, ch_path);
    let ch_dir = match spec_parent_dir(ch_abs) {
        Some(d) => d,
        None => src_dir,
    };
    let rel = match rel_path_of(qr_rel, ch_dir) {
        Some(p) => p,
        None => qr_rel,
    };
    spec_with_cache_bust(spec_normalize_rel(rel), bust)
}

fn img_src(qr_rel: &Vec<u8>, src_dir: &Vec<u8>, ch_path: &Vec<u8>, bust: &Option<Vec<u8>>) -> (r:
    Vec<u8>)
    ensures
        r@ == spec_img_src(qr_rel@, src_dir@, ch_path@, view_opt_bytes(*bust)),
{
    let ch_abs = crate::util::join_path(src_dir, ch_path);
    let ch_dir = match parent_dir(&ch_abs) {
        Some(d) => d,
        None => copy_bytes(src_dir),
    };
    let rel = match rel_path_between(qr_rel, &ch_dir) {
        Some(p) => p,
        None => copy_bytes(qr_rel),
    };
    with_cache_bust(normalize_rel(&rel), bust)
}

/// One document of the tree: an optional filesystem-relative path and its
/// text content.
#[derive(Clone, Debug)]
pub struct Chapter {
    pub path: Option<Vec<u8>>,
    pub content: Vec<u8>,
}

pub ghost struct ChapterView {
    pub path: Option<Seq<u8>>,
    pub content: Seq<u8>,
}

impl View for Chapter {
    type V = ChapterView;

    open spec fn view(&self) -> ChapterView {
        ChapterView { path: view_opt_bytes(self.path), content: self.content@ }
    }
}

/// One chapter after injection: a chapter with a path whose content holds
/// the marker is rewritten by the substitution engine; everything else is
/// untouched.
pub open spec fn spec_inject_chapter(
    ch: ChapterView,
    marker: Seq<u8>,
    src_dir: Seq<u8>,
    qr_rel: Seq<u8>,
    fit_h: u32,
    fit_w: u32,
    bust: Option<Seq<u8>>,
) -> ChapterView {
    match ch.path {
        Some(p) => if spec_contains(ch.content, marker) {
            ChapterView {
                path: ch.path,
                content: spec_replace_markers(
                    ch.content,
                    marker,
                    spec_img_tag(spec_img_src(qr_rel, src_dir, p, bust), fit_h, fit_w),
                ),
            }
        } else {
            ch
        },
        None => ch,
    }
}

/// Replaces every safe occurrence of `marker` in every chapter with an
/// image tag whose source is relative to that chapter's own directory.
pub fn inject_marker_relative(
    book: &mut Vec<Chapter>,
    marker: &Vec<u8>,
    src_dir: &Vec<u8>,
    qr_rel_under_src: &Vec<u8>,
    fit_h: u32,
    fit_w: u32,
    cache_bust: &Option<Vec<u8>>,
)
    requires
        marker@.len() > 0,
    ensures
        final(book)@.len() == old(book)@.len(),
        forall|i: int| 0 <= i < old(book)@.len() ==> final(book)@[i]@ == spec_inject_chapter(
            old(book)@[i]@,
            marker@,
            src_dir@,
            qr_rel_under_src@,
            fit_h,
            fit_w,
            view_opt_bytes(*cache_bust),
        ),
{
    let mut updated: Vec<Chapter> = Vec::new();
    let mut i: usize = 0;
    while i < book.len()
        invariant
            marker@.len() > 0,
            i <= book@.len(),
            book@ == old(book)@,
            updated@.len() == i,
            forall|j: int| 0 <= j < i ==> updated@[j]@ == spec_inject_chapter(
                book@[j]@,
                marker@,
                src_dir@,
                qr_rel_under_src@,
                fit_h,
                fit_w,
                view_opt_bytes(*cache_bust),
            ),
        decreases book@.len() - i,
    {
        let ch = &book[i];
        let new_ch: Chapter = match &ch.path {
            Some(p) => {
                if contains_bytes(&ch.content, marker) {
                    let src = img_src(qr_rel_under_src, src_dir, p, cache_bust);
                    let tag = img_tag(&src, fit_h, fit_w);
                    Chapter {
                        path: crate::bytes::dup_opt_bytes(&ch.path),
                        content: replace_markers_outside_code(&ch.content, marker, &tag),
                    }
                } else {
                    Chapter {
                        path: crate::bytes::dup_opt_bytes(&ch.path),
                        content: copy_bytes(&ch.content),
                    }
                }
            },
            None => Chapter { path: None, content: copy_bytes(&ch.content) },
        };
        updated.push(new_ch);
        i = i + 1;
    }
    *book = updated;
}

} // verus!
