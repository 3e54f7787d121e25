use mdbook_qr::config::FitConfig;
use mdbook_qr::diag::Diag;
use mdbook_qr::util::{clamp_nonzero, derived_default_path, ensure_png_path, gitignore_glob,
    join_path, localhost_fixed_path, pass_fit_dims, resolve_profile_path, slug_from_marker,
    updated_gitignore};

fn slug(m: &str) -> Vec<u8> {
    slug_from_marker(&m.as_bytes().to_vec())
}

#[test]
fn slug_of_conventional_marker() {
    assert_eq!(slug("{{QR-FLYER}}"), b"qr_flyer".to_vec());
    assert_eq!(slug("{{QR_CODE}}"), b"qr_code".to_vec());
}

#[test]
fn slug_is_pure() {
    let a = slug("{{My Marker 7}}");
    let b = slug("{{My Marker 7}}");
    assert_eq!(a, b);
    assert_eq!(a, b"my_marker_7".to_vec());
}

#[test]
fn slugs_of_case_and_punctuation_variants_collapse() {
    // Accepted behaviour: distinct markers may share a slug; collisions
    // are detected downstream, not prevented here.
    assert_eq!(slug("{{QR-FLYER}}"), slug("{{qr_flyer}}"));
    assert_eq!(slug(" {{A  B}} "), b"a_b".to_vec());
}

#[test]
fn slug_drops_interior_braces_and_trims_underscores() {
    assert_eq!(slug("{{--}}"), b"".to_vec());
    assert_eq!(slug("{{a{b}c}}"), b"abc".to_vec());
}

#[test]
fn derived_path_is_slug_under_qr_dir() {
    assert_eq!(
        derived_default_path(&b"src".to_vec(), &b"{{QR_CODE}}".to_vec()),
        b"src/qr/qr_code.png".to_vec()
    );
    assert_eq!(
        derived_default_path(&b"".to_vec(), &b"{{X}}".to_vec()),
        b"qr/x.png".to_vec()
    );
}

#[test]
fn resolve_path_explicit_absolute_kept() {
    assert_eq!(
        resolve_profile_path(
            &b"src".to_vec(),
            &Some(b"/abs/out.png".to_vec()),
            &b"{{M}}".to_vec(),
        ),
        b"/abs/out.png".to_vec()
    );
}

#[test]
fn resolve_path_explicit_relative_joined_under_src() {
    assert_eq!(
        resolve_profile_path(
            &b"src".to_vec(),
            &Some(b"imgs/a.png".to_vec()),
            &b"{{M}}".to_vec(),
        ),
        b"src/imgs/a.png".to_vec()
    );
}

#[test]
fn resolve_path_without_explicit_derives_from_marker() {
    assert_eq!(
        resolve_profile_path(&b"src".to_vec(), &None, &b"{{M}}".to_vec()),
        b"src/qr/m.png".to_vec()
    );
}

#[test]
fn join_path_handles_separators() {
    assert_eq!(join_path(&b"a".to_vec(), &b"b".to_vec()), b"a/b".to_vec());
    assert_eq!(join_path(&b"a/".to_vec(), &b"b".to_vec()), b"a/b".to_vec());
    assert_eq!(join_path(&b"".to_vec(), &b"b".to_vec()), b"b".to_vec());
}

#[test]
fn fit_defaults_when_both_absent() {
    let mut diags: Vec<Diag> = Vec::new();
    let dims = pass_fit_dims(&FitConfig { width: None, height: None }, &mut diags);
    assert_eq!(dims, (200, 200));
    assert!(diags.is_empty());
}

#[test]
fn fit_mirrors_single_dimension() {
    let mut diags: Vec<Diag> = Vec::new();
    assert_eq!(pass_fit_dims(&FitConfig { width: Some(50), height: None }, &mut diags), (50, 50));
    assert_eq!(pass_fit_dims(&FitConfig { width: None, height: Some(70) }, &mut diags), (70, 70));
    assert!(diags.is_empty());
}

#[test]
fn fit_zero_warns_and_uses_default() {
    let mut diags: Vec<Diag> = Vec::new();
    let dims = pass_fit_dims(&FitConfig { width: Some(0), height: Some(40) }, &mut diags);
    assert_eq!(dims, (200, 40));
    assert_eq!(diags, vec![Diag::ZeroWidth]);

    let mut diags2: Vec<Diag> = Vec::new();
    let dims2 = pass_fit_dims(&FitConfig { width: Some(0), height: Some(0) }, &mut diags2);
    assert_eq!(dims2, (200, 200));
    assert_eq!(diags2, vec![Diag::ZeroWidth, Diag::ZeroHeight]);
}

#[test]
fn fit_both_present_passed_through() {
    let mut diags: Vec<Diag> = Vec::new();
    assert_eq!(
        pass_fit_dims(&FitConfig { width: Some(30), height: Some(40) }, &mut diags),
        (30, 40)
    );
    assert!(diags.is_empty());
}

#[test]
fn clamp_keeps_nonzero_and_replaces_zero() {
    assert_eq!(clamp_nonzero(0, 7), 7);
    assert_eq!(clamp_nonzero(5, 7), 5);
}

#[test]
fn localhost_path_is_fixed() {
    assert_eq!(
        localhost_fixed_path(&b"book".to_vec()),
        b"book/mdbook_qr/qr_localhost.png".to_vec()
    );
}

#[test]
fn png_extension_is_forced() {
    assert_eq!(ensure_png_path(&b"a/b.jpg".to_vec()), b"a/b.png".to_vec());
    assert_eq!(ensure_png_path(&b"a/b.PNG".to_vec()), b"a/b.PNG".to_vec());
    assert_eq!(ensure_png_path(&b"a/b".to_vec()), b"a/b.png".to_vec());
    assert_eq!(ensure_png_path(&b".hidden".to_vec()), b".hidden.png".to_vec());
    assert_eq!(ensure_png_path(&b"dir.x/name".to_vec()), b"dir.x/name.png".to_vec());
}

#[test]
fn gitignore_glob_normalizes_slashes() {
    assert_eq!(gitignore_glob(&b"src".to_vec()), b"*src/mdbook_qr/".to_vec());
    assert_eq!(gitignore_glob(&b"a\\b".to_vec()), b"*a/b/mdbook_qr/".to_vec());
    assert_eq!(gitignore_glob(&b"a//b/".to_vec()), b"*a/b/mdbook_qr/".to_vec());
}

#[test]
fn gitignore_update_appends_once() {
    let updated = updated_gitignore(&b"target/\n".to_vec(), &b"src".to_vec())
        .expect("glob is absent, contents must change");
    assert_eq!(
        updated,
        b"target/\n# mdbook-qr (localhost image)\n*src/mdbook_qr/\n".to_vec()
    );
    // Idempotent: running again on the result changes nothing.
    assert_eq!(updated_gitignore(&updated, &b"src".to_vec()), None);
}

#[test]
fn gitignore_update_adds_missing_final_newline() {
    let updated = updated_gitignore(&b"target/".to_vec(), &b"src".to_vec()).unwrap();
    assert_eq!(
        updated,
        b"target/\n# mdbook-qr (localhost image)\n*src/mdbook_qr/\n".to_vec()
    );
}

#[test]
fn gitignore_update_recognizes_padded_line() {
    let contents = b"  *src/mdbook_qr/  \n".to_vec();
    assert_eq!(updated_gitignore(&contents, &b"src".to_vec()), None);
}

#[test]
fn gitignore_update_on_empty_contents() {
    let updated = updated_gitignore(&b"".to_vec(), &b"src".to_vec()).unwrap();
    assert_eq!(updated, b"# mdbook-qr (localhost image)\n*src/mdbook_qr/\n".to_vec());
}
