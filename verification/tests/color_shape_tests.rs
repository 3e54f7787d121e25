use mdbook_qr::config::{ColorCfg, ColorError, FailureMode, Profile, QrConfig, Rgba, ShapeFlags,
    ShapeKind};

fn flags(
    square: bool,
    circle: bool,
    rounded_square: bool,
    vertical: bool,
    horizontal: bool,
    diamond: bool,
) -> ShapeFlags {
    ShapeFlags { square, circle, rounded_square, vertical, horizontal, diamond }
}

#[test]
fn hex_three_digits_doubles_channels() {
    let c = ColorCfg::Hex(b"#abc".to_vec());
    assert_eq!(c.to_color(), Ok(Rgba { r: 0xaa, g: 0xbb, b: 0xcc, a: 255 }));
}

#[test]
fn hex_six_digits_full_alpha() {
    let c = ColorCfg::Hex(b"#A1B2C3".to_vec());
    assert_eq!(c.to_color(), Ok(Rgba { r: 0xa1, g: 0xb2, b: 0xc3, a: 255 }));
}

#[test]
fn hex_eight_digits_carries_alpha() {
    let c = ColorCfg::Hex(b"#11223344".to_vec());
    assert_eq!(c.to_color(), Ok(Rgba { r: 0x11, g: 0x22, b: 0x33, a: 0x44 }));
}

#[test]
fn hex_without_hash_accepted() {
    let c = ColorCfg::Hex(b"fff".to_vec());
    assert_eq!(c.to_color(), Ok(Rgba { r: 255, g: 255, b: 255, a: 255 }));
}

#[test]
fn hex_wrong_length_rejected() {
    let c = ColorCfg::Hex(b"#abcd".to_vec());
    assert_eq!(c.to_color(), Err(ColorError::Length));
    let c2 = ColorCfg::Hex(b"".to_vec());
    assert_eq!(c2.to_color(), Err(ColorError::Length));
}

#[test]
fn hex_bad_digit_rejected() {
    let c = ColorCfg::Hex(b"#xyz".to_vec());
    assert_eq!(c.to_color(), Err(ColorError::Digit));
}

#[test]
fn rgb_array_full_alpha() {
    let c = ColorCfg::Rgb([1, 2, 3]);
    assert_eq!(c.to_color(), Ok(Rgba { r: 1, g: 2, b: 3, a: 255 }));
}

#[test]
fn rgba_array_positional() {
    let c = ColorCfg::Rgba([9, 8, 7, 6]);
    assert_eq!(c.to_color(), Ok(Rgba { r: 9, g: 8, b: 7, a: 6 }));
}

#[test]
fn shape_default_is_square() {
    assert_eq!(flags(false, false, false, false, false, false).to_shape(), ShapeKind::Square);
}

#[test]
fn shape_square_flag_is_square() {
    assert_eq!(flags(true, false, false, false, false, false).to_shape(), ShapeKind::Square);
}

#[test]
fn shape_diamond_alone_wins() {
    assert_eq!(flags(false, false, false, false, false, true).to_shape(), ShapeKind::Diamond);
}

#[test]
fn shape_precedence_circle_first() {
    assert_eq!(flags(true, true, true, true, true, true).to_shape(), ShapeKind::Circle);
    assert_eq!(flags(true, false, true, true, true, true).to_shape(), ShapeKind::RoundedSquare);
    assert_eq!(flags(true, false, false, true, true, true).to_shape(), ShapeKind::Vertical);
    assert_eq!(flags(true, false, false, false, true, true).to_shape(), ShapeKind::Horizontal);
    assert_eq!(flags(true, false, false, false, false, true).to_shape(), ShapeKind::Diamond);
}

#[test]
fn any_set_sees_every_flag() {
    assert!(!flags(false, false, false, false, false, false).any_set());
    assert!(flags(true, false, false, false, false, false).any_set());
    assert!(flags(false, false, false, false, false, true).any_set());
}

#[test]
fn failure_mode_defaults_to_continue() {
    assert_eq!(FailureMode::default(), FailureMode::Continue);
}

#[test]
fn default_config_values() {
    let cfg = QrConfig::default();
    assert_eq!(cfg.enable, Some(true));
    assert_eq!(cfg.url, None);
    assert_eq!(cfg.qr_path, None);
    assert_eq!(cfg.on_failure, FailureMode::Continue);
    assert!(cfg.include_default);
    assert_eq!(cfg.margin, Some(2));
    assert_eq!(cfg.fit.width, None);
    assert_eq!(cfg.fit.height, None);
    match &cfg.background {
        Some(ColorCfg::Hex(h)) => assert_eq!(h, &b"#FFFFFFFF".to_vec()),
        other => panic!("unexpected background: {:?}", other),
    }
    match &cfg.module {
        Some(ColorCfg::Hex(h)) => assert_eq!(h, &b"#000000FF".to_vec()),
        other => panic!("unexpected module: {:?}", other),
    }
    assert!(cfg.custom.is_empty());
    assert!(cfg.is_enabled());
}

#[test]
fn default_profile_lifts_top_level_fields() {
    let mut cfg = QrConfig::default();
    cfg.url = Some(b"https://example.org".to_vec());
    cfg.margin = Some(5);
    let p: Profile = cfg.default_profile();
    assert_eq!(p.marker, Some(b"{{QR_CODE}}".to_vec()));
    assert_eq!(p.url, Some(b"https://example.org".to_vec()));
    assert_eq!(p.margin, Some(5));
    assert!(p.is_enabled());
}

#[test]
fn profile_colors_resolve_or_fail() {
    let mut p = QrConfig::default().default_profile();
    assert_eq!(
        p.background_color(),
        Ok(Some(Rgba { r: 255, g: 255, b: 255, a: 255 }))
    );
    assert_eq!(p.module_color(), Ok(Some(Rgba { r: 0, g: 0, b: 0, a: 255 })));
    p.background = Some(ColorCfg::Hex(b"#nope00".to_vec()));
    assert_eq!(p.background_color(), Err(ColorError::Digit));
    p.background = None;
    assert_eq!(p.background_color(), Ok(None));
}
