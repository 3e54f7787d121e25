//! Payload (URL) resolution: an explicit value wins, then a CI repository
//! fallback, then a local-preview fallback. The caller reads the
//! environment and hands the repository value in as plain data.

use vstd::prelude::*;

use crate::bytes::{copy_bytes, match_at, push_bytes, spec_match_at, trim_p, trim_ws_bytes,
    view_opt_bytes, ws_p};
use crate::diag::{view_diags, Diag, DiagView};

verus! {

/// No explicit payload and no viable fallback.
#[derive(Clone, Copy, Debug, PartialEq, Eq, Structural)]
pub enum UrlError {
    NoUrl,
}

/// ASCII lower-casing of one byte.
pub open spec fn lower_byte(b: u8) -> u8 {
    if 65 <= b && b <= 90 {
        (b + 32) as u8
    } else {
        b
    }
}

pub open spec fn spec_lower(s: Seq<u8>) -> Seq<u8> {
    s.map_values(|b: u8| lower_byte(b))
}

pub open spec fn spec_http_prefix() -> Seq<u8> {
    seq![104u8, 116u8, 116u8, 112u8, 58u8, 47u8, 47u8]
}

pub open spec fn spec_https_prefix() -> Seq<u8> {
    seq![104u8, 116u8, 116u8, 112u8, 115u8, 58u8, 47u8, 47u8]
}

/// Does the trimmed, lower-cased text start with `http://` or `https://`?
pub open spec fn spec_is_abs_http(u: Seq<u8>) -> bool {
    let low = spec_lower(trim_p(u, ws_p()));
    spec_match_at(low, spec_http_prefix(), 0) || spec_match_at(low, spec_https_prefix(), 0)
}

fn http_prefix() -> (r: Vec<u8>)
    ensures
        r@ == spec_http_prefix(),
{
    let mut r: Vec<u8> = Vec::new();
    r.push(104);
    r.push(116);
    r.push(116);
    r.push(112);
    r.push(58);
    r.push(47);
    r.push(47);
    proof {
        assert(r@ =~= spec_http_prefix());
    }
    r
}

fn https_prefix() -> (r: Vec<u8>)
    ensures
        r@ == spec_https_prefix(),
{
    let mut r: Vec<u8> = Vec::new();
    r.push(104);
    r.push(116);
    r.push(116);
    r.push(112);
    r.push(115);
    r.push(58);
    r.push(47);
    r.push(47);
    proof {
        assert(r@ =~= spec_https_prefix());
    }
    r
}

/// Is the value an absolute http(s) URL (after trimming, case-insensitive
/// on the scheme)?
pub fn is_abs_http(u: &Vec<u8>) -> (r: bool)
    ensures
        r == spec_is_abs_http(u@),
{
    let t = trim_ws_bytes(u);
    let mut low: Vec<u8> = Vec::new();
    let mut i: usize = 0;
    while i < t.len()
        invariant
            i <= t@.len(),
            low@ == spec_lower(t@.take(i as int)),
        decreases t@.len() - i,
    {
        let b = t[i];
        low.push(if 65 <= b && b <= 90 {
            b + 32
        } else {
            b
        });
        i = i + 1;
        proof {
            assert(low@ =~= spec_lower(t@.take(i as int)));
        }
    }
    proof {
        assert(t@.take(t@.len() as int) =~= t@);
    }
    let h1 = http_prefix();
    let h2 = https_prefix();
    let r1 = match_at(&low, &h1, 0);
    let r2 = match_at(&low, &h2, 0);
    r1 || r2
}

/// Index of the first `c` in `s`, or `s.len()` when absent.
pub open spec fn spec_find_byte(s: Seq<u8>, c: u8) -> int
    decreases s.len(),
{
    if s.len() == 0 {
        0
    } else if s[0] == c {
        0
    } else {
        1 + spec_find_byte(s.skip(1), c)
    }
}

/// `spec_find_byte` is the first hit: everything before `k` misses and `k`
/// hits (or is the end).
pub proof fn lemma_find_byte(s: Seq<u8>, c: u8, k: int)
    requires
        0 <= k <= s.len(),
        forall|j: int| 0 <= j < k ==> #[trigger] s[j] != c,
        k == s.len() || s[k] == c,
    ensures
        spec_find_byte(s, c) == k,
    decreases k,
{
    if k == 0 {
    } else {
        lemma_find_byte(s.skip(1), c, k - 1);
    }
}

pub open spec fn spec_gh_mid() -> Seq<u8> {
    seq![46u8, 103u8, 105u8, 116u8, 104u8, 117u8, 98u8, 46u8, 105u8, 111u8, 47u8]
}

/// The CI fallback URL derived from an `owner/name` repository value:
/// `https://<owner>.github.io/<name>`.
pub open spec fn spec_gh_pages(repo: Seq<u8>) -> Seq<u8> {
    let k = spec_find_byte(repo, 47);
    spec_https_prefix() + repo.take(k) + spec_gh_mid() + repo.skip(k + 1)
}

/// The local-preview fallback: `http://127.0.0.1:3000/`.
pub open spec fn spec_localhost_url() -> Seq<u8> {
    seq![
        104u8, 116u8, 116u8, 112u8, 58u8, 47u8, 47u8, 49u8, 50u8, 55u8, 46u8, 48u8, 46u8, 48u8,
        46u8, 49u8, 58u8, 51u8, 48u8, 48u8, 48u8, 47u8,
    ]
}

/// Resolution order: an explicit payload is returned as given; otherwise a
/// repository value containing `/` yields the CI fallback; otherwise the
/// local-preview flag yields the fixed local URL; otherwise resolution
/// fails.
pub open spec fn spec_resolve_url(
    url: Option<Seq<u8>>,
    env_repo: Option<Seq<u8>>,
    localhost_qr: bool,
) -> Result<Seq<u8>, UrlError> {
    match url {
        Some(u) => Ok(u),
        None => match env_repo {
            Some(repo) => if spec_find_byte(repo, 47) < repo.len() {
                Ok(spec_gh_pages(repo))
            } else if localhost_qr {
                Ok(spec_localhost_url())
            } else {
                Err(UrlError::NoUrl)
            },
            None => if localhost_qr {
                Ok(spec_localhost_url())
            } else {
                Err(UrlError::NoUrl)
            },
        },
    }
}

/// The warning raised by resolution: an explicit payload that is not an
/// absolute http(s) URL is encoded as-is, with a note.
pub open spec fn spec_resolve_url_diags(url: Option<Seq<u8>>) -> Seq<DiagView> {
    match url {
        Some(u) => if !spec_is_abs_http(u) {
            seq![DiagView::NonAbsoluteUrl { url: u }]
        } else {
            Seq::empty()
        },
        None => Seq::empty(),
    }
}

fn gh_pages(repo: &Vec<u8>) -> (r: Vec<u8>)
    requires
        spec_find_byte(repo@, 47) < repo@.len(),
    ensures
        r@ == spec_gh_pages(repo@),
{
    let mut k: usize = 0;
    while k < repo.len() && repo[k] != 47
        invariant
            k <= repo@.len(),
            forall|j: int| 0 <= j < k ==> #[trigger] repo@[j] != 47,
        decreases repo@.len() - k,
    {
        k = k + 1;
    }
    proof {
        lemma_find_byte(repo@, 47, k as int);
    }
    let mut r = https_prefix();
    crate::bytes::push_range(&mut r, repo, 0, k);
    let mut mid: Vec<u8> = Vec::new();
    mid.push(46);
    mid.push(103);
    mid.push(105);
    mid.push(116);
    mid.push(104);
    mid.push(117);
    mid.push(98);
    mid.push(46);
    mid.push(105);
    mid.push(111);
    mid.push(47);
    proof {
        assert(mid@ =~= spec_gh_mid());
    }
    push_bytes(&mut r, &mid);
    crate::bytes::push_range(&mut r, repo, k + 1, repo.len());
    proof {
        assert(repo@.take(k as int) =~= repo@.subrange(0, k as int));
        assert(repo@.skip(k + 1) =~= repo@.subrange(k + 1, repo@.len() as int));
        assert(r@ =~= spec_gh_pages(repo@));
    }
    r
}

fn localhost_url() -> (r: Vec<u8>)
    ensures
        r@ == spec_localhost_url(),
{
    let mut r = http_prefix();
    r.push(49);
    r.push(50);
    r.push(55);
    r.push(46);
    r.push(48);
    r.push(46);
    r.push(48);
    r.push(46);
    r.push(49);
    r.push(58);
    r.push(51);
    r.push(48);
    r.push(48);
    r.push(48);
    r.push(47);
    proof {
        assert(r@ =~= spec_localhost_url());
    }
    r
}

/// Resolves the payload text for one profile; the repository fallback
/// comes from the caller (read from the CI environment), never from this
/// crate. A non-absolute explicit payload is kept, with a warning.
pub fn resolve_url(
    url: &Option<Vec<u8>>,
    env_repo: &Option<Vec<u8>>,
    localhost_qr: bool,
    diags: &mut Vec<Diag>,
) -> (r: Result<Vec<u8>, UrlError>)
    ensures
        match r {
            Ok(v) => spec_resolve_url(
                view_opt_bytes(*url),
                view_opt_bytes(*env_repo),
                localhost_qr,
            ) == Ok::<Seq<u8>, UrlError>(v@),
            Err(e) => spec_resolve_url(
                view_opt_bytes(*url),
                view_opt_bytes(*env_repo),
                localhost_qr,
            ) == Err::<Seq<u8>, UrlError>(e),
        },
        view_diags(final(diags)@) == view_diags(old(diags)@) + spec_resolve_url_diags(
            view_opt_bytes(*url),
        ),
{
    let ghost before = diags@;
    match url {
        Some(u) => {
            if !is_abs_http(u) {
                diags.push(Diag::NonAbsoluteUrl { url: copy_bytes(u) });
            }
            proof {
                assert(view_diags(diags@) =~= view_diags(before) + spec_resolve_url_diags(
                    view_opt_bytes(*url),
                ));
            }
            Ok(copy_bytes(u))
        },
        None => {
            proof {
                assert(view_diags(diags@) =~= view_diags(before) + spec_resolve_url_diags(
                    view_opt_bytes(*url),
                ));
            }
            match env_repo {
                Some(repo) => {
                    let mut k: usize = 0;
                    while k < repo.len() && repo[k] != 47
                        invariant
                            k <= repo@.len(),
                            forall|j: int| 0 <= j < k ==> #[trigger] repo@[j] != 47,
                        decreases repo@.len() - k,
                    {
                        k = k + 1;
                    }
                    proof {
                        lemma_find_byte(repo@, 47, k as int);
                    }
                    if k < repo.len() {
                        Ok(gh_pages(repo))
                    } else if localhost_qr {
                        Ok(localhost_url())
                    } else {
                        Err(UrlError::NoUrl)
                    }
                },
                None => {
                    if localhost_qr {
                        Ok(localhost_url())
                    } else {
                        Err(UrlError::NoUrl)
                    }
                },
            }
        },
    }
}

} // verus!
