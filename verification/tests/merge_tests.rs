use mdbook_qr::config::{ColorCfg, FitConfig, NamedProfile, Profile, QrConfig, ShapeFlags};
use mdbook_qr::diag::Diag;

fn empty_profile() -> Profile {
    Profile {
        marker: None,
        qr_path: None,
        enable: None,
        url: None,
        fit: FitConfig::default(),
        margin: None,
        shape: ShapeFlags::default(),
        background: None,
        module: None,
    }
}

#[test]
fn merge_keeps_base_fields_when_override_absent() {
    let mut base = empty_profile();
    base.marker = Some(b"{{BASE}}".to_vec());
    base.qr_path = Some(b"base.png".to_vec());
    base.enable = Some(false);
    base.url = Some(b"https://base".to_vec());
    base.fit = FitConfig { width: Some(10), height: Some(20) };
    base.margin = Some(7);
    base.shape.circle = true;
    base.background = Some(ColorCfg::Rgb([1, 2, 3]));
    base.module = Some(ColorCfg::Rgb([4, 5, 6]));

    let mut child = empty_profile();
    child.marker = Some(b"{{CHILD}}".to_vec());

    let merged = QrConfig::inherit(&base, &child);
    // Identity fields come from the override alone.
    assert_eq!(merged.marker, Some(b"{{CHILD}}".to_vec()));
    assert_eq!(merged.qr_path, None);
    // Everything else inherits from the base when absent in the override.
    assert_eq!(merged.enable, Some(false));
    assert_eq!(merged.url, Some(b"https://base".to_vec()));
    assert_eq!(merged.fit.width, Some(10));
    assert_eq!(merged.fit.height, Some(20));
    assert_eq!(merged.margin, Some(7));
    assert!(merged.shape.circle);
    assert!(matches!(merged.background, Some(ColorCfg::Rgb([1, 2, 3]))));
    assert!(matches!(merged.module, Some(ColorCfg::Rgb([4, 5, 6]))));
}

#[test]
fn merge_override_wins_when_present() {
    let mut base = empty_profile();
    base.url = Some(b"https://base".to_vec());
    base.margin = Some(7);
    let mut child = empty_profile();
    child.marker = Some(b"{{C}}".to_vec());
    child.url = Some(b"https://child".to_vec());
    child.margin = Some(1);
    let merged = QrConfig::inherit(&base, &child);
    assert_eq!(merged.url, Some(b"https://child".to_vec()));
    assert_eq!(merged.margin, Some(1));
}

#[test]
fn merge_shape_selector_is_a_whole_unit() {
    let mut base = empty_profile();
    base.shape.circle = true;
    base.shape.diamond = true;
    let mut child = empty_profile();
    child.shape.vertical = true;
    let merged = QrConfig::inherit(&base, &child);
    // The override set a flag: its whole selector replaces the base's.
    assert!(merged.shape.vertical);
    assert!(!merged.shape.circle);
    assert!(!merged.shape.diamond);

    let child2 = empty_profile();
    let merged2 = QrConfig::inherit(&base, &child2);
    // No flag set in the override: the base's selector survives whole.
    assert!(merged2.shape.circle);
    assert!(merged2.shape.diamond);
    assert!(!merged2.shape.vertical);
}

#[test]
fn merge_fit_inherits_per_dimension() {
    let mut base = empty_profile();
    base.fit = FitConfig { width: Some(100), height: Some(200) };
    let mut child = empty_profile();
    child.fit = FitConfig { width: Some(50), height: None };
    let merged = QrConfig::inherit(&base, &child);
    assert_eq!(merged.fit.width, Some(50));
    assert_eq!(merged.fit.height, Some(200));
}

#[test]
fn profiles_include_default_and_valid_customs() {
    let mut cfg = QrConfig::default();
    cfg.url = Some(b"https://example.org".to_vec());
    let mut named = empty_profile();
    named.marker = Some(b"{{FLYER}}".to_vec());
    cfg.custom.push(NamedProfile { name: b"flyer".to_vec(), profile: named });
    let ps = cfg.profiles();
    assert_eq!(ps.len(), 2);
    assert_eq!(ps[0].marker, Some(b"{{QR_CODE}}".to_vec()));
    assert_eq!(ps[1].marker, Some(b"{{FLYER}}".to_vec()));
    // The named override inherited the payload from the default profile.
    assert_eq!(ps[1].url, Some(b"https://example.org".to_vec()));
}

#[test]
fn profiles_drop_custom_without_marker() {
    let mut cfg = QrConfig::default();
    cfg.url = Some(b"https://example.org".to_vec());
    cfg.custom.push(NamedProfile { name: b"anon".to_vec(), profile: empty_profile() });
    let ps = cfg.profiles();
    assert_eq!(ps.len(), 1);
    let warnings = cfg.warn_invalid_customs();
    assert_eq!(warnings, vec![Diag::MissingMarker { name: b"anon".to_vec() }]);
}

#[test]
fn profile_without_payload_and_path_is_dropped() {
    // No payload anywhere and no explicit path: both the default profile
    // and the named override are incomplete and dropped with a warning.
    let mut cfg = QrConfig::default();
    assert_eq!(cfg.url, None);
    assert_eq!(cfg.qr_path, None);
    let mut named = empty_profile();
    named.marker = Some(b"{{FLYER}}".to_vec());
    cfg.custom.push(NamedProfile { name: b"flyer".to_vec(), profile: named });
    let ps = cfg.profiles();
    assert!(ps.is_empty());
    let warnings = cfg.warn_invalid_customs();
    assert_eq!(warnings, vec![Diag::MissingPayload { name: b"flyer".to_vec() }]);
}

#[test]
fn profile_with_explicit_path_but_no_payload_is_kept() {
    let mut cfg = QrConfig::default();
    let mut named = empty_profile();
    named.marker = Some(b"{{FLYER}}".to_vec());
    named.qr_path = Some(b"qr/flyer.png".to_vec());
    cfg.custom.push(NamedProfile { name: b"flyer".to_vec(), profile: named });
    let ps = cfg.profiles();
    // The default (no payload, no path) is dropped; the named one stays.
    assert_eq!(ps.len(), 1);
    assert_eq!(ps[0].marker, Some(b"{{FLYER}}".to_vec()));
}

#[test]
fn include_default_false_suppresses_default() {
    let mut cfg = QrConfig::default();
    cfg.url = Some(b"https://example.org".to_vec());
    cfg.include_default = false;
    assert!(cfg.profiles().is_empty());
}

#[test]
fn duplicate_marker_reports_first_repeat() {
    let mut a = empty_profile();
    a.marker = Some(b"{{X}}".to_vec());
    let mut b = empty_profile();
    b.marker = Some(b"{{Y}}".to_vec());
    let mut c = empty_profile();
    c.marker = Some(b"{{X}}".to_vec());
    let ps = vec![a, b, c];
    assert_eq!(QrConfig::duplicate_marker_from(&ps), Some(b"{{X}}".to_vec()));
}

#[test]
fn distinct_markers_report_no_duplicate() {
    let mut a = empty_profile();
    a.marker = Some(b"{{X}}".to_vec());
    let mut b = empty_profile();
    b.marker = Some(b"{{Y}}".to_vec());
    let none = empty_profile();
    let ps = vec![a, none, b];
    assert_eq!(QrConfig::duplicate_marker_from(&ps), None);
}
