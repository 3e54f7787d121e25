//! Fit-dimension resolution, marker slugs and output-path resolution.
//!
//! Paths in this crate are byte strings with `/` as the separator; a path
//! is absolute exactly when it starts with `/`.

use vstd::prelude::*;

use crate::bytes::{copy_range, eq_p, push_bytes, push_range, trim_byte_bytes, trim_p,
    trim_ws_bytes, ws_p, view_opt_bytes};
use crate::diag::{view_diags, Diag, DiagView};

verus! {

/// A dimension of zero falls back to `fallback`; anything else passes
/// through.
pub open spec fn spec_clamp_nonzero(value: u32, fallback: u32) -> u32 {
    if value == 0 {
        fallback
    } else {
        value
    }
}

pub fn clamp_nonzero(value: u32, fallback: u32) -> (r: u32)
    ensures
        r == spec_clamp_nonzero(value, fallback),
{
    if value == 0 {
        fallback
    } else {
        value
    }
}

/// The (width, height) handed to the encoder: both default when absent, a
/// single present dimension is mirrored onto the other, and zero is
/// replaced by the default size.
pub open spec fn spec_fit_dims(f: crate::config::FitConfig) -> (u32, u32) {
    match (f.width, f.height) {
        (Option::None, Option::None) => (crate::DEFAULT_SIZE, crate::DEFAULT_SIZE),
        (Option::Some(w), Option::None) => (
            spec_clamp_nonzero(w, crate::DEFAULT_SIZE),
            spec_clamp_nonzero(w, crate::DEFAULT_SIZE),
        ),
        (Option::None, Option::Some(h)) => (
            spec_clamp_nonzero(h, crate::DEFAULT_SIZE),
            spec_clamp_nonzero(h, crate::DEFAULT_SIZE),
        ),
        (Option::Some(w), Option::Some(h)) => (
            spec_clamp_nonzero(w, crate::DEFAULT_SIZE),
            spec_clamp_nonzero(h, crate::DEFAULT_SIZE),
        ),
    }
}

/// The warnings raised while resolving the fit: one per present dimension
/// that is zero.
pub open spec fn spec_fit_diags(f: crate::config::FitConfig) -> Seq<DiagView> {
    let dw: Seq<DiagView> = if f.width == Some(0u32) {
        seq![DiagView::ZeroWidth]
    } else {
        Seq::empty()
    };
    let dh: Seq<DiagView> = if f.height == Some(0u32) {
        seq![DiagView::ZeroHeight]
    } else {
        Seq::empty()
    };
    dw + dh
}

/// Resolves the fit to concrete render dimensions, appending a warning for
/// each present dimension that is zero.
pub fn pass_fit_dims(fit: &crate::config::FitConfig, diags: &mut Vec<Diag>) -> (dims: (u32, u32))
    ensures
        dims == spec_fit_dims(*fit),
        view_diags(final(diags)@) == view_diags(old(diags)@) + spec_fit_diags(*fit),
{
    let ghost before = diags@;
    if match fit.width {
        Some(w) => w == 0,
        None => false,
    } {
        diags.push(Diag::ZeroWidth);
    }
    if match fit.height {
        Some(h) => h == 0,
        None => false,
    } {
        diags.push(Diag::ZeroHeight);
    }
    proof {
        assert(view_diags(diags@) =~= view_diags(before) + spec_fit_diags(*fit));
    }
    match (fit.width, fit.height) {
        (Option::None, Option::None) => (crate::DEFAULT_SIZE, crate::DEFAULT_SIZE),
        (Option::Some(w), Option::None) => {
            let ww = clamp_nonzero(w, crate::DEFAULT_SIZE);
            (ww, ww)
        },
        (Option::None, Option::Some(h)) => {
            let hh = clamp_nonzero(h, crate::DEFAULT_SIZE);
            (hh, hh)
        },
        (Option::Some(w), Option::Some(h)) => {
            let ww = clamp_nonzero(w, crate::DEFAULT_SIZE);
            let hh = clamp_nonzero(h, crate::DEFAULT_SIZE);
            (ww, hh)
        },
    }
}

pub open spec fn is_ascii_alnum(b: u8) -> bool {
    (48 <= b && b <= 57) || (97 <= b && b <= 122) || (65 <= b && b <= 90)
}

/// One byte of a slug: alphanumerics are lower-cased, everything else
/// becomes an underscore.
pub open spec fn slug_byte(b: u8) -> u8 {
    if 65 <= b && b <= 90 {
        (b + 32) as u8
    } else if is_ascii_alnum(b) {
        b
    } else {
        95u8
    }
}

/// All brace bytes removed.
pub open spec fn spec_strip_braces(s: Seq<u8>) -> Seq<u8>
    decreases s.len(),
{
    if s.len() == 0 {
        Seq::empty()
    } else {
        let rest = spec_strip_braces(s.drop_last());
        if s.last() == 123 || s.last() == 125 {
            rest
        } else {
            rest.push(s.last())
        }
    }
}

pub open spec fn spec_map_slug(s: Seq<u8>) -> Seq<u8> {
    s.map_values(|b: u8| slug_byte(b))
}

/// Runs of `c` collapsed to a single `c`.
pub open spec fn spec_collapse_runs(s: Seq<u8>, c: u8) -> Seq<u8>
    decreases s.len(),
{
    if s.len() == 0 {
        Seq::empty()
    } else {
        let rest = spec_collapse_runs(s.drop_last(), c);
        if s.len() >= 2 && s.last() == c && s[s.len() - 2] == c {
            rest
        } else {
            rest.push(s.last())
        }
    }
}

/// The slug of a marker: trim whitespace and the wrapping braces, drop any
/// remaining braces, lower-case alphanumerics, turn every other byte into
/// an underscore, collapse underscore runs, and trim underscores.
pub open spec fn spec_slug(m: Seq<u8>) -> Seq<u8> {
    let t = trim_p(trim_p(trim_p(m, ws_p()), eq_p(123)), eq_p(125));
    trim_p(spec_collapse_runs(spec_map_slug(spec_strip_braces(t)), 95), eq_p(95))
}

/// Derives a filesystem-safe slug from marker text, such as `qr_flyer`
/// from `{{QR-FLYER}}`. Markers differing only in case or punctuation
/// style collapse to the same slug; that is accepted, collisions are
/// detected downstream rather than prevented.
pub fn slug_from_marker(marker: &Vec<u8>) -> (out: Vec<u8>)
    ensures
        out@ == spec_slug(marker@),
{
    let t0 = trim_ws_bytes(marker);
    let t1 = trim_byte_bytes(&t0, 123);
    let t2 = trim_byte_bytes(&t1, 125);

    let mut t3: Vec<u8> = Vec::new();
    let mut i: usize = 0;
    while i < t2.len()
        invariant
            i <= t2@.len(),
            t3@ == spec_strip_braces(t2@.take(i as int)),
        decreases t2@.len() - i,
    {
        let b = t2[i];
        if b != 123 && b != 125 {
            t3.push(b);
        }
        i = i + 1;
        proof {
            assert(t2@.take(i as int).drop_last() =~= t2@.take(i - 1));
        }
    }
    proof {
        assert(t2@.take(t2@.len() as int) =~= t2@);
    }

    let mut t4: Vec<u8> = Vec::new();
    let mut i: usize = 0;
    while i < t3.len()
        invariant
            i <= t3@.len(),
            t4@ == spec_map_slug(t3@.take(i as int)),
        decreases t3@.len() - i,
    {
        let b = t3[i];
        let mapped: u8 = if 65 <= b && b <= 90 {
            b + 32
        } else if (48 <= b && b <= 57) || (97 <= b && b <= 122) {
            b
        } else {
            95
        };
        t4.push(mapped);
        i = i + 1;
        proof {
            assert(t4@ =~= spec_map_slug(t3@.take(i as int)));
        }
    }
    proof {
        assert(t3@.take(t3@.len() as int) =~= t3@);
    }

    let mut t5: Vec<u8> = Vec::new();
    let mut i: usize = 0;
    while i < t4.len()
        invariant
            i <= t4@.len(),
            t5@ == spec_collapse_runs(t4@.take(i as int), 95),
        decreases t4@.len() - i,
    {
        let b = t4[i];
        if !(b == 95 && i > 0 && t4[i - 1] == 95) {
            t5.push(b);
        }
        i = i + 1;
        proof {
            assert(t4@.take(i as int).drop_last() =~= t4@.take(i - 1));
        }
    }
    proof {
        assert(t4@.take(t4@.len() as int) =~= t4@);
    }

    trim_byte_bytes(&t5, 95)
}

/// Path join: `a` then `b` with exactly one separator between, the other
/// side alone when one is empty.
pub open spec fn spec_join(a: Seq<u8>, b: Seq<u8>) -> Seq<u8> {
    if a.len() == 0 {
        b
    } else if a.last() == 47 {
        a + b
    } else {
        a + seq![47u8] + b
    }
}

/// Joins two relative-or-absolute byte paths with a `/` separator.
pub fn join_path(a: &Vec<u8>, b: &Vec<u8>) -> (r: Vec<u8>)
    ensures
        r@ == spec_join(a@, b@),
{
    let mut r: Vec<u8> = Vec::new();
    push_bytes(&mut r, a);
    if a.len() > 0 && a[a.len() - 1] != 47 {
        r.push(47);
    }
    push_bytes(&mut r, b);
    proof {
        if a@.len() > 0 && a@.last() != 47 {
            assert(r@ =~= a@ + seq![47u8] + b@);
        }
    }
    r
}

/// The fixed name of the directory that holds derived images.
pub open spec fn spec_qr_dir() -> Seq<u8> {
    seq![113u8, 114u8]
}

/// The fixed image extension.
pub open spec fn spec_png_ext() -> Seq<u8> {
    seq![46u8, 112u8, 110u8, 103u8]
}

/// The derived default output path: `<src_dir>/qr/<slug>.png`.
pub open spec fn spec_derived_default_path(src_dir: Seq<u8>, marker: Seq<u8>) -> Seq<u8> {
    spec_join(spec_join(src_dir, spec_qr_dir()), spec_slug(marker) + spec_png_ext())
}

/// The derived default path for a marker, a pure function of the source
/// root and the marker text alone.
pub fn derived_default_path(src_dir: &Vec<u8>, marker: &Vec<u8>) -> (r: Vec<u8>)
    ensures
        r@ == spec_derived_default_path(src_dir@, marker@),
{
    let mut qr: Vec<u8> = Vec::new();
    qr.push(113);
    qr.push(114);
    proof {
        assert(qr@ =~= spec_qr_dir());
    }
    let dir = join_path(src_dir, &qr);
    let mut file = slug_from_marker(marker);
    file.push(46);
    file.push(112);
    file.push(110);
    file.push(103);
    proof {
        assert(file@ =~= spec_slug(marker@) + spec_png_ext());
    }
    join_path(&dir, &file)
}

/// A byte path is absolute exactly when it starts with `/`.
pub open spec fn spec_is_absolute(p: Seq<u8>) -> bool {
    p.len() > 0 && p[0] == 47
}

/// The final output path of a profile: an explicit path is kept when
/// absolute and joined under the source root when relative; without one
/// the default path is derived from the marker.
pub open spec fn spec_resolve_profile_path(
    src_dir: Seq<u8>,
    qr_path: Option<Seq<u8>>,
    marker: Seq<u8>,
) -> Seq<u8> {
    match qr_path {
        Some(p) => if spec_is_absolute(p) {
            p
        } else {
            spec_join(src_dir, p)
        },
        None => spec_derived_default_path(src_dir, marker),
    }
}

/// Resolves a profile's output path; pure, no I/O.
pub fn resolve_profile_path(src_dir: &Vec<u8>, qr_path: &Option<Vec<u8>>, marker: &Vec<u8>) -> (r:
    Vec<u8>)
    ensures
        r@ == spec_resolve_profile_path(src_dir@, view_opt_bytes(*qr_path), marker@),
{
    match qr_path {
        Some(p) => {
            if p.len() > 0 && p[0] == 47 {
                crate::bytes::copy_bytes(p)
            } else {
                join_path(src_dir, p)
            }
        },
        None => derived_default_path(src_dir, marker),
    }
}

/// The fixed path used for a local-preview image:
/// `<src_dir>/mdbook_qr/qr_localhost.png`.
pub open spec fn spec_localhost_fixed_path(src_dir: Seq<u8>) -> Seq<u8> {
    spec_join(
        spec_join(
            src_dir,
            seq![109u8, 100u8, 98u8, 111u8, 111u8, 107u8, 95u8, 113u8, 114u8],
        ),
        seq![
            113u8, 114u8, 95u8, 108u8, 111u8, 99u8, 97u8, 108u8, 104u8, 111u8, 115u8, 116u8,
            46u8, 112u8, 110u8, 103u8,
        ],
    )
}

pub fn localhost_fixed_path(src_dir: &Vec<u8>) -> (r: Vec<u8>)
    ensures
        r@ == spec_localhost_fixed_path(src_dir@),
{
    let mut d: Vec<u8> = Vec::new();
    d.push(109);
    d.push(100);
    d.push(98);
    d.push(111);
    d.push(111);
    d.push(107);
    d.push(95);
    d.push(113);
    d.push(114);
    let mut f: Vec<u8> = Vec::new();
    f.push(113);
    f.push(114);
    f.push(95);
    f.push(108);
    f.push(111);
    f.push(99);
    f.push(97);
    f.push(108);
    f.push(104);
    f.push(111);
    f.push(115);
    f.push(116);
    f.push(46);
    f.push(112);
    f.push(110);
    f.push(103);
    proof {
        assert(d@ =~= seq![109u8, 100u8, 98u8, 111u8, 111u8, 107u8, 95u8, 113u8, 114u8]);
        assert(f@ =~= seq![
            113u8, 114u8, 95u8, 108u8, 111u8, 99u8, 97u8, 108u8, 104u8, 111u8, 115u8, 116u8,
            46u8, 112u8, 110u8, 103u8,
        ]);
    }
    let dir = join_path(src_dir, &d);
    join_path(&dir, &f)
}

/// Index of the last `.` in `p`, or -1 when there is none.
pub open spec fn spec_rfind_dot(p: Seq<u8>) -> int
    decreases p.len(),
{
    if p.len() == 0 {
        -1
    } else if p.last() == 46 {
        p.len() - 1
    } else {
        spec_rfind_dot(p.drop_last())
    }
}

pub proof fn lemma_rfind_dot(p: Seq<u8>, k: int)
    requires
        0 <= k <= p.len(),
        forall|j: int| k <= j < p.len() ==> #[trigger] p[j] != 46,
        k == 0 || p[k - 1] == 46,
    ensures
        spec_rfind_dot(p) == k - 1,
    decreases p.len(),
{
    if k < p.len() {
        lemma_rfind_dot(p.drop_last(), k);
    }
}

/// The path with a `.png` extension: kept as it is when its file name
/// already carries one (compared case-insensitively), otherwise with the
/// old extension replaced, or `.png` appended when there is none.
pub open spec fn spec_ensure_png(p: Seq<u8>) -> Seq<u8> {
    let s = crate::html::spec_rfind_slash(p);
    let k = spec_rfind_dot(p);
    if k > s + 1 {
        if crate::url::spec_lower(p.skip(k + 1)) == seq![112u8, 110u8, 103u8] {
            p
        } else {
            p.take(k) + spec_png_ext()
        }
    } else {
        p + spec_png_ext()
    }
}

/// Forces the fixed image extension onto an output path.
pub fn ensure_png_path(p: &Vec<u8>) -> (r: Vec<u8>)
    ensures
        r@ == spec_ensure_png(p@),
{
    let mut s: usize = p.len();
    while s > 0 && p[s - 1] != 47
        invariant
            s <= p@.len(),
            forall|j: int| s <= j < p@.len() ==> #[trigger] p@[j] != 47,
        decreases s,
    {
        s = s - 1;
    }
    let mut k: usize = p.len();
    while k > 0 && p[k - 1] != 46
        invariant
            k <= p@.len(),
            forall|j: int| k <= j < p@.len() ==> #[trigger] p@[j] != 46,
        decreases k,
    {
        k = k - 1;
    }
    proof {
        crate::html::lemma_rfind_slash(p@, s as int);
        lemma_rfind_dot(p@, k as int);
    }
    if k > 0 && k - 1 > s {
        let ext = copy_range(p, k, p.len());
        let mut low: Vec<u8> = Vec::new();
        let mut i: usize = 0;
        while i < ext.len()
            invariant
                i <= ext@.len(),
                low@ == crate::url::spec_lower(ext@.take(i as int)),
            decreases ext@.len() - i,
        {
            let b = ext[i];
            low.push(if 65 <= b && b <= 90 {
                b + 32
            } else {
                b
            });
            i = i + 1;
            proof {
                assert(low@ =~= crate::url::spec_lower(ext@.take(i as int)));
            }
        }
        proof {
            assert(ext@.take(ext@.len() as int) =~= ext@);
            assert(ext@ =~= p@.skip(k as int));
        }
        let mut png: Vec<u8> = Vec::new();
        png.push(112);
        png.push(110);
        png.push(103);
        proof {
            assert(png@ =~= seq![112u8, 110u8, 103u8]);
        }
        if crate::bytes::bytes_eq(&low, &png) {
            crate::bytes::copy_bytes(p)
        } else {
            let mut r = copy_range(p, 0, k - 1);
            r.push(46);
            r.push(112);
            r.push(110);
            r.push(103);
            proof {
                assert(p@.subrange(0, k - 1) =~= p@.take(k - 1));
                assert(r@ =~= p@.take(k - 1) + spec_png_ext());
            }
            r
        }
    } else {
        let mut r = crate::bytes::copy_bytes(p);
        r.push(46);
        r.push(112);
        r.push(110);
        r.push(103);
        proof {
            assert(r@ =~= p@ + spec_png_ext());
        }
        r
    }
}

/// The ignore glob for the local-preview image: `*<src_dir>/mdbook_qr/`,
/// with backslashes turned forward and slash runs collapsed.
pub open spec fn spec_gitignore_glob(src_dir: Seq<u8>) -> Seq<u8> {
    spec_collapse_runs(
        seq![42u8] + crate::html::spec_fwd_slashes(src_dir) + seq![
            47u8, 109u8, 100u8, 98u8, 111u8, 111u8, 107u8, 95u8, 113u8, 114u8, 47u8,
        ],
        47,
    )
}

/// Builds the ignore glob for the local-preview image directory.
pub fn gitignore_glob(src_dir: &Vec<u8>) -> (r: Vec<u8>)
    ensures
        r@ == spec_gitignore_glob(src_dir@),
{
    let mut t: Vec<u8> = Vec::new();
    t.push(42);
    let mut i: usize = 0;
    while i < src_dir.len()
        invariant
            i <= src_dir@.len(),
            t@ == seq![42u8] + crate::html::spec_fwd_slashes(src_dir@.take(i as int)),
        decreases src_dir@.len() - i,
    {
        let b = src_dir[i];
        t.push(if b == 92 {
            47
        } else {
            b
        });
        i = i + 1;
        proof {
            assert(t@ =~= seq![42u8] + crate::html::spec_fwd_slashes(src_dir@.take(i as int)));
        }
    }
    t.push(47);
    t.push(109);
    t.push(100);
    t.push(98);
    t.push(111);
    t.push(111);
    t.push(107);
    t.push(95);
    t.push(113);
    t.push(114);
    t.push(47);
    proof {
        assert(src_dir@.take(src_dir@.len() as int) =~= src_dir@);
        assert(t@ =~= seq![42u8] + crate::html::spec_fwd_slashes(src_dir@) + seq![
            47u8, 109u8, 100u8, 98u8, 111u8, 111u8, 107u8, 95u8, 113u8, 114u8, 47u8,
        ]);
    }
    let mut out: Vec<u8> = Vec::new();
    let mut i: usize = 0;
    while i < t.len()
        invariant
            i <= t@.len(),
            out@ == spec_collapse_runs(t@.take(i as int), 47),
        decreases t@.len() - i,
    {
        let b = t[i];
        if !(b == 47 && i > 0 && t[i - 1] == 47) {
            out.push(b);
        }
        i = i + 1;
        proof {
            assert(t@.take(i as int).drop_last() =~= t@.take(i - 1));
        }
    }
    proof {
        assert(t@.take(t@.len() as int) =~= t@);
    }
    out
}

/// Does some line of `s`, trimmed, equal `g`? Scans line by line from
/// position `i`.
pub open spec fn spec_has_line_from(s: Seq<u8>, i: int, g: Seq<u8>) -> bool
    decreases s.len() - i,
    via spec_has_line_from_dec
{
    if i < 0 || i >= s.len() {
        false
    } else {
        let e = crate::html::spec_line_end(s, i);
        let body = if s[e - 1] == 10 {
            s.subrange(i, e - 1)
        } else {
            s.subrange(i, e)
        };
        if trim_p(body, ws_p()) == g {
            true
        } else {
            spec_has_line_from(s, e, g)
        }
    }
}

#[via_fn]
proof fn spec_has_line_from_dec(s: Seq<u8>, i: int, g: Seq<u8>) {
    if 0 <= i {
        crate::html::lemma_line_end_bounds(s, i);
    }
}

/// The gitignore contents after ensuring the local-preview glob: nothing
/// when some line already holds it; otherwise the contents with a
/// newline added when missing, a tag comment, the glob and a final
/// newline appended. Idempotent: the text it returns holds the glob as a
/// line, so a second pass returns nothing.
pub open spec fn spec_updated_gitignore(contents: Seq<u8>, src_dir: Seq<u8>) -> Option<Seq<u8>> {
    let g = spec_gitignore_glob(src_dir);
    if spec_has_line_from(contents, 0, g) {
        None
    } else {
        let base = if contents.len() > 0 && contents.last() != 10 {
            contents + seq![10u8]
        } else {
            contents
        };
        Some(base + spec_gitignore_comment() + g + seq![10u8])
    }
}

/// The tag comment written above the glob.
pub open spec fn spec_gitignore_comment() -> Seq<u8> {
    seq![
        35u8, 32u8, 109u8, 100u8, 98u8, 111u8, 111u8, 107u8, 45u8, 113u8, 114u8, 32u8, 40u8,
        108u8, 111u8, 99u8, 97u8, 108u8, 104u8, 111u8, 115u8, 116u8, 32u8, 105u8, 109u8, 97u8,
        103u8, 101u8, 41u8, 10u8,
    ]
}

/// Computes the new gitignore contents that ignore the local-preview
/// image directory, or nothing when the glob is already present.
pub fn updated_gitignore(contents: &Vec<u8>, src_dir: &Vec<u8>) -> (r: Option<Vec<u8>>)
    ensures
        view_opt_bytes(r) == spec_updated_gitignore(contents@, src_dir@),
{
    let g = gitignore_glob(src_dir);
    let mut l: usize = 0;
    while l < contents.len()
        invariant
            l <= contents@.len(),
            g@ == spec_gitignore_glob(src_dir@),
            spec_has_line_from(contents@, 0, g@) == spec_has_line_from(contents@, l as int, g@),
        decreases contents@.len() - l,
    {
        let mut k: usize = l;
        while k < contents.len() && contents[k] != 10
            invariant
                l <= k <= contents@.len(),
                forall|j: int| l <= j < k ==> #[trigger] contents@[j] != 10,
            decreases contents@.len() - k,
        {
            k = k + 1;
        }
        let has_nl = k < contents.len();
        let e: usize = if has_nl {
            k + 1
        } else {
            k
        };
        proof {
            crate::html::lemma_line_end_at(contents@, l as int, k as int);
            assert(crate::html::spec_line_end(contents@, l as int) == e as int);
            assert((contents@[e - 1] == 10) == has_nl);
        }
        let body = copy_range(contents, l, k);
        proof {
            assert(body@ == if contents@[e - 1] == 10 {
                contents@.subrange(l as int, e - 1)
            } else {
                contents@.subrange(l as int, e as int)
            });
        }
        let t = trim_ws_bytes(&body);
        if crate::bytes::bytes_eq(&t, &g) {
            proof {
                assert(spec_has_line_from(contents@, l as int, g@));
            }
            return None;
        }
        l = e;
    }
    proof {
        assert(!spec_has_line_from(contents@, l as int, g@));
    }
    let mut r: Vec<u8> = Vec::new();
    push_range(&mut r, contents, 0, contents.len());
    let ghost base0 = r@;
    if contents.len() > 0 && contents[contents.len() - 1] != 10 {
        r.push(10);
    }
    proof {
        assert(contents@.subrange(0, contents@.len() as int) =~= contents@);
        if contents@.len() > 0 && contents@.last() != 10 {
            assert(r@ =~= contents@ + seq![10u8]);
        }
    }
    let ghost base = r@;
    let mut c: Vec<u8> = Vec::new();
    c.push(35);
    c.push(32);
    c.push(109);
    c.push(100);
    c.push(98);
    c.push(111);
    c.push(111);
    c.push(107);
    c.push(45);
    c.push(113);
    c.push(114);
    c.push(32);
    c.push(40);
    c.push(108);
    c.push(111);
    c.push(99);
    c.push(97);
    c.push(108);
    c.push(104);
    c.push(111);
    c.push(115);
    c.push(116);
    c.push(32);
    c.push(105);
    c.push(109);
    c.push(97);
    c.push(103);
    c.push(101);
    c.push(41);
    c.push(10);
    proof {
        assert(c@ =~= spec_gitignore_comment());
    }
    push_bytes(&mut r, &c);
    push_bytes(&mut r, &g);
    r.push(10);
    proof {
        assert(r@ =~= base + spec_gitignore_comment() + g@ + seq![10u8]);
    }
    Some(r)
}

} // verus!
