use mdbook_qr::config::{FailureMode, FitConfig, NamedProfile, Profile, QrConfig, ShapeFlags,
    ShapeKind, ColorCfg, ColorError, Rgba};
use mdbook_qr::diag::Diag;
use mdbook_qr::html::Chapter;
use mdbook_qr::preprocessor::{build_profiles, marker_in_book, plan_profile, register_path,
    FailReason, PathMarker, ProfileAction, QrPreprocessor, SkipReason};

fn empty_profile() -> Profile {
    Profile {
        marker: None,
        qr_path: None,
        enable: None,
        url: None,
        fit: FitConfig::default(),
        margin: None,
        shape: ShapeFlags::default(),
        background: None,
        module: None,
    }
}

fn profile(marker: &str, url: Option<&str>, qr_path: Option<&str>) -> Profile {
    let mut p = empty_profile();
    p.marker = Some(marker.as_bytes().to_vec());
    p.url = url.map(|u| u.as_bytes().to_vec());
    p.qr_path = qr_path.map(|q| q.as_bytes().to_vec());
    p
}

fn book_with(content: &str) -> Vec<Chapter> {
    vec![Chapter { path: Some(b"one.md".to_vec()), content: content.as_bytes().to_vec() }]
}

#[test]
fn preprocessor_identity() {
    let pre = QrPreprocessor::new();
    assert_eq!(pre.name(), "qr");
    assert!(pre.supports_renderer("html"));
    assert!(pre.supports_renderer("anything"));
}

#[test]
fn marker_search_spans_chapters() {
    let book = vec![
        Chapter { path: None, content: b"nothing".to_vec() },
        Chapter { path: Some(b"a.md".to_vec()), content: b"has {{QR}} here".to_vec() },
    ];
    assert!(marker_in_book(&book, &b"{{QR}}".to_vec()));
    assert!(!marker_in_book(&book, &b"{{OTHER}}".to_vec()));
}

#[test]
fn disabled_profile_is_skipped_silently() {
    let mut p = profile("{{QR}}", Some("https://x"), None);
    p.enable = Some(false);
    let book = book_with("{{QR}}");
    let mut seen: Vec<PathMarker> = Vec::new();
    let mut diags: Vec<Diag> = Vec::new();
    let action = plan_profile(
        &p, &book, &None, false, &b"src".to_vec(), false, &FailureMode::Continue, &mut seen,
        &mut diags,
    );
    assert_eq!(action, ProfileAction::Skip(SkipReason::Disabled));
    assert!(diags.is_empty());
    assert!(seen.is_empty());
}

#[test]
fn unused_marker_is_skipped_with_warning() {
    let p = profile("{{QR}}", Some("https://x"), None);
    let book = book_with("no markers at all");
    let mut seen: Vec<PathMarker> = Vec::new();
    let mut diags: Vec<Diag> = Vec::new();
    let action = plan_profile(
        &p, &book, &None, false, &b"src".to_vec(), false, &FailureMode::Continue, &mut seen,
        &mut diags,
    );
    assert_eq!(action, ProfileAction::Skip(SkipReason::Unused));
    assert_eq!(diags, vec![Diag::UnusedMarker { marker: b"{{QR}}".to_vec() }]);
}

#[test]
fn unresolved_url_skips_or_bails_per_failure_mode() {
    let p = profile("{{QR}}", None, Some("qr/x.png"));
    let book = book_with("{{QR}}");
    let mut seen: Vec<PathMarker> = Vec::new();
    let mut diags: Vec<Diag> = Vec::new();
    let action = plan_profile(
        &p, &book, &None, false, &b"src".to_vec(), false, &FailureMode::Continue, &mut seen,
        &mut diags,
    );
    assert_eq!(action, ProfileAction::Skip(SkipReason::Unresolved));
    assert_eq!(diags, vec![Diag::UnresolvedUrl { marker: b"{{QR}}".to_vec() }]);

    let mut diags2: Vec<Diag> = Vec::new();
    let action2 = plan_profile(
        &p, &book, &None, false, &b"src".to_vec(), false, &FailureMode::Bail, &mut seen,
        &mut diags2,
    );
    assert_eq!(action2, ProfileAction::Fail(FailReason::UnresolvedUrl));
    assert!(diags2.is_empty());
}

#[test]
fn environment_repository_feeds_url_fallback() {
    let p = profile("{{QR}}", None, None);
    let book = book_with("{{QR}}");
    let mut seen: Vec<PathMarker> = Vec::new();
    let mut diags: Vec<Diag> = Vec::new();
    let action = plan_profile(
        &p, &book, &Some(b"owner/repo".to_vec()), false, &b"src".to_vec(), false,
        &FailureMode::Continue, &mut seen, &mut diags,
    );
    match action {
        ProfileAction::Render(plan) => {
            assert_eq!(plan.url, b"https://owner.github.io/repo".to_vec());
            assert_eq!(plan.path, b"src/qr/qr.png".to_vec());
        },
        other => panic!("expected a render plan, got {:?}", other),
    }
}

#[test]
fn render_plan_assembles_parameters() {
    let mut p = profile("{{QR}}", Some("https://x"), None);
    p.fit = FitConfig { width: Some(100), height: None };
    p.margin = Some(4);
    p.shape.diamond = true;
    p.background = Some(ColorCfg::Hex(b"#fff".to_vec()));
    p.module = Some(ColorCfg::Rgb([0, 0, 0]));
    let book = book_with("{{QR}}");
    let mut seen: Vec<PathMarker> = Vec::new();
    let mut diags: Vec<Diag> = Vec::new();
    let action = plan_profile(
        &p, &book, &None, false, &b"src".to_vec(), false, &FailureMode::Continue, &mut seen,
        &mut diags,
    );
    match action {
        ProfileAction::Render(plan) => {
            assert_eq!(plan.marker, b"{{QR}}".to_vec());
            assert_eq!(plan.url, b"https://x".to_vec());
            assert_eq!(plan.path, b"src/qr/qr.png".to_vec());
            assert_eq!((plan.fit_w, plan.fit_h), (100, 100));
            assert_eq!(plan.margin, 4);
            assert_eq!(plan.shape, ShapeKind::Diamond);
            assert_eq!(plan.background, Some(Rgba { r: 255, g: 255, b: 255, a: 255 }));
            assert_eq!(plan.module, Some(Rgba { r: 0, g: 0, b: 0, a: 255 }));
        },
        other => panic!("expected a render plan, got {:?}", other),
    }
    assert!(diags.is_empty());
    assert_eq!(seen.len(), 1);
}

#[test]
fn malformed_color_stops_the_run() {
    let mut p = profile("{{QR}}", Some("https://x"), None);
    p.module = Some(ColorCfg::Hex(b"#12345".to_vec()));
    let book = book_with("{{QR}}");
    let mut seen: Vec<PathMarker> = Vec::new();
    let mut diags: Vec<Diag> = Vec::new();
    let action = plan_profile(
        &p, &book, &None, false, &b"src".to_vec(), false, &FailureMode::Continue, &mut seen,
        &mut diags,
    );
    assert_eq!(action, ProfileAction::Fail(FailReason::BadColor(ColorError::Length)));
}

#[test]
fn path_collision_warns_but_does_not_fail() {
    // Two distinct markers resolving to the same output path: the run
    // warns and carries on; the later profile's file wins.
    let a = profile("{{A}}", Some("https://x"), Some("qr/default.png"));
    let b = profile("{{B}}", Some("https://y"), Some("qr/default.png"));
    let book = book_with("{{A}} and {{B}}");
    let mut seen: Vec<PathMarker> = Vec::new();
    let mut diags: Vec<Diag> = Vec::new();
    let first = plan_profile(
        &a, &book, &None, false, &b"src".to_vec(), false, &FailureMode::Continue, &mut seen,
        &mut diags,
    );
    assert!(matches!(first, ProfileAction::Render(_)));
    assert!(diags.is_empty());
    let second = plan_profile(
        &b, &book, &None, false, &b"src".to_vec(), false, &FailureMode::Continue, &mut seen,
        &mut diags,
    );
    assert!(matches!(second, ProfileAction::Render(_)));
    assert_eq!(
        diags,
        vec![Diag::PathCollision {
            prev: b"{{A}}".to_vec(),
            marker: b"{{B}}".to_vec(),
            path: b"src/qr/default.png".to_vec(),
        }]
    );
    // Last writer wins in the registry.
    assert_eq!(seen.len(), 1);
    assert_eq!(seen[0].marker, b"{{B}}".to_vec());
}

#[test]
fn same_marker_twice_on_one_path_is_no_collision() {
    let a = profile("{{A}}", Some("https://x"), Some("qr/a.png"));
    let book = book_with("{{A}}");
    let mut seen: Vec<PathMarker> = Vec::new();
    let mut diags: Vec<Diag> = Vec::new();
    plan_profile(
        &a, &book, &None, false, &b"src".to_vec(), false, &FailureMode::Continue, &mut seen,
        &mut diags,
    );
    plan_profile(
        &a, &book, &None, false, &b"src".to_vec(), false, &FailureMode::Continue, &mut seen,
        &mut diags,
    );
    assert!(diags.is_empty());
}

#[test]
fn existing_derived_default_is_not_overwritten() {
    let p = profile("{{QR_CODE}}", Some("https://x"), None);
    let book = book_with("{{QR_CODE}}");
    let mut seen: Vec<PathMarker> = Vec::new();
    let mut diags: Vec<Diag> = Vec::new();
    let action = plan_profile(
        &p, &book, &None, false, &b"src".to_vec(), true, &FailureMode::Continue, &mut seen,
        &mut diags,
    );
    assert_eq!(action, ProfileAction::Skip(SkipReason::Refused));
    assert_eq!(
        diags,
        vec![Diag::RefusedOverwrite {
            marker: b"{{QR_CODE}}".to_vec(),
            path: b"src/qr/qr_code.png".to_vec(),
        }]
    );
}

#[test]
fn explicit_path_bypasses_the_overwrite_guard() {
    let p = profile("{{QR_CODE}}", Some("https://x"), Some("qr/qr_code.png"));
    let book = book_with("{{QR_CODE}}");
    let mut seen: Vec<PathMarker> = Vec::new();
    let mut diags: Vec<Diag> = Vec::new();
    let action = plan_profile(
        &p, &book, &None, false, &b"src".to_vec(), true, &FailureMode::Continue, &mut seen,
        &mut diags,
    );
    assert!(matches!(action, ProfileAction::Render(_)));
}

#[test]
fn register_path_reports_previous_claimant() {
    let mut seen: Vec<PathMarker> = Vec::new();
    assert_eq!(register_path(&mut seen, &b"p.png".to_vec(), &b"{{A}}".to_vec()), None);
    assert_eq!(
        register_path(&mut seen, &b"p.png".to_vec(), &b"{{B}}".to_vec()),
        Some(b"{{A}}".to_vec())
    );
    assert_eq!(register_path(&mut seen, &b"q.png".to_vec(), &b"{{C}}".to_vec()), None);
    assert_eq!(seen.len(), 2);
    assert_eq!(seen[0].marker, b"{{B}}".to_vec());
}

#[test]
fn bare_custom_table_suppresses_default() {
    let mut cfg = QrConfig::default();
    cfg.url = Some(b"https://x".to_vec());
    let mut diags: Vec<Diag> = Vec::new();
    let ps = build_profiles(&cfg, true, &None, &mut diags);
    assert!(ps.is_empty());
    assert_eq!(diags, vec![Diag::SuppressedDefault]);
}

#[test]
fn build_profiles_keeps_default_and_merged_customs() {
    let mut cfg = QrConfig::default();
    cfg.url = Some(b"https://x".to_vec());
    let mut named = empty_profile();
    named.marker = Some(b"{{FLYER}}".to_vec());
    cfg.custom.push(NamedProfile { name: b"flyer".to_vec(), profile: named });
    let mut diags: Vec<Diag> = Vec::new();
    let ps = build_profiles(&cfg, false, &None, &mut diags);
    assert_eq!(ps.len(), 2);
    assert_eq!(ps[0].marker, Some(b"{{QR_CODE}}".to_vec()));
    assert_eq!(ps[1].marker, Some(b"{{FLYER}}".to_vec()));
    assert_eq!(ps[1].url, Some(b"https://x".to_vec()));
    assert!(diags.is_empty());
}

#[test]
fn bare_table_defaults_sit_between_default_and_override() {
    let mut cfg = QrConfig::default();
    cfg.url = Some(b"https://from-top".to_vec());
    cfg.margin = Some(9);
    let mut named = empty_profile();
    named.marker = Some(b"{{FLYER}}".to_vec());
    cfg.custom.push(NamedProfile { name: b"flyer".to_vec(), profile: named });
    let mut cd = empty_profile();
    cd.margin = Some(3);
    let mut diags: Vec<Diag> = Vec::new();
    let ps = build_profiles(&cfg, true, &Some(cd), &mut diags);
    assert_eq!(ps.len(), 1);
    // The override has no margin and the first merge takes the top-level
    // one; the bare-table default cannot override a present field.
    assert_eq!(ps[0].margin, Some(9));
    assert_eq!(ps[0].url, Some(b"https://from-top".to_vec()));
    assert_eq!(diags, vec![Diag::SuppressedDefault]);
}

#[test]
fn build_profiles_drops_incomplete_entries_with_warnings() {
    let mut cfg = QrConfig::default();
    // No payload anywhere: the default profile is incomplete, and so is
    // the named override without a path.
    let mut named = empty_profile();
    named.marker = Some(b"{{FLYER}}".to_vec());
    cfg.custom.push(NamedProfile { name: b"flyer".to_vec(), profile: named });
    cfg.custom.push(NamedProfile { name: b"anon".to_vec(), profile: empty_profile() });
    let mut diags: Vec<Diag> = Vec::new();
    let ps = build_profiles(&cfg, false, &None, &mut diags);
    assert!(ps.is_empty());
    assert_eq!(
        diags,
        vec![
            Diag::MissingPayload { name: b"{{QR_CODE}}".to_vec() },
            Diag::MissingPayload { name: b"flyer".to_vec() },
            Diag::MissingMarker { name: b"anon".to_vec() },
        ]
    );
}
