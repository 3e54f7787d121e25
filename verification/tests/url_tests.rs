use mdbook_qr::diag::Diag;
use mdbook_qr::url::{is_abs_http, resolve_url, UrlError};

#[test]
fn absolute_http_detection() {
    assert!(is_abs_http(&b"http://example.org".to_vec()));
    assert!(is_abs_http(&b"https://example.org".to_vec()));
    assert!(is_abs_http(&b"HTTPS://EXAMPLE.ORG".to_vec()));
    assert!(is_abs_http(&b"  http://padded  ".to_vec()));
    assert!(!is_abs_http(&b"ftp://example.org".to_vec()));
    assert!(!is_abs_http(&b"example.org".to_vec()));
    assert!(!is_abs_http(&b"".to_vec()));
}

#[test]
fn explicit_url_wins_verbatim() {
    let mut diags: Vec<Diag> = Vec::new();
    let r = resolve_url(
        &Some(b"https://example.org/page".to_vec()),
        &Some(b"owner/repo".to_vec()),
        true,
        &mut diags,
    );
    assert_eq!(r, Ok(b"https://example.org/page".to_vec()));
    assert!(diags.is_empty());
}

#[test]
fn non_absolute_explicit_url_kept_with_warning() {
    let mut diags: Vec<Diag> = Vec::new();
    let r = resolve_url(&Some(b"example.org".to_vec()), &None, false, &mut diags);
    assert_eq!(r, Ok(b"example.org".to_vec()));
    assert_eq!(diags, vec![Diag::NonAbsoluteUrl { url: b"example.org".to_vec() }]);
}

#[test]
fn repository_fallback_builds_pages_url() {
    let mut diags: Vec<Diag> = Vec::new();
    let r = resolve_url(&None, &Some(b"owner/repo".to_vec()), false, &mut diags);
    assert_eq!(r, Ok(b"https://owner.github.io/repo".to_vec()));
    assert!(diags.is_empty());
}

#[test]
fn repository_value_without_slash_is_no_fallback() {
    let mut diags: Vec<Diag> = Vec::new();
    let r = resolve_url(&None, &Some(b"ownerrepo".to_vec()), false, &mut diags);
    assert_eq!(r, Err(UrlError::NoUrl));
}

#[test]
fn localhost_fallback_is_last() {
    let mut diags: Vec<Diag> = Vec::new();
    let r = resolve_url(&None, &None, true, &mut diags);
    assert_eq!(r, Ok(b"http://127.0.0.1:3000/".to_vec()));
    let r2 = resolve_url(&None, &Some(b"noslash".to_vec()), true, &mut diags);
    assert_eq!(r2, Ok(b"http://127.0.0.1:3000/".to_vec()));
}

#[test]
fn nothing_configured_fails() {
    let mut diags: Vec<Diag> = Vec::new();
    assert_eq!(resolve_url(&None, &None, false, &mut diags), Err(UrlError::NoUrl));
    assert!(diags.is_empty());
}
