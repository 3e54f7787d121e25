//! Orchestration: building the effective profile list for one run and
//! planning the work for each profile. The host performs the planned
//! actions (encoding and file writes) and hands results back; every
//! decision is made here.

use vstd::prelude::*;

use crate::bytes::{bytes_eq, contains_bytes, copy_bytes, spec_contains, view_opt_bytes};
use crate::config::{spec_default_marker, spec_default_profile, spec_enabled, spec_inherit,
    spec_opt_color, spec_profile_valid, spec_to_shape, ColorError, FailureMode, Profile,
    ProfileView, QrConfig, QrConfigView, Rgba, ShapeKind};
use crate::diag::{view_diags, Diag, DiagView};
use crate::html::{Chapter, ChapterView};
use crate::url::{spec_resolve_url, spec_resolve_url_diags};
use crate::util::{spec_derived_default_path, spec_fit_diags, spec_fit_dims,
    spec_resolve_profile_path};

verus! {

/// The preprocessor itself; the host's plumbing drives it.
pub struct QrPreprocessor;

impl QrPreprocessor {
    pub fn new() -> (s: Self) {
        QrPreprocessor
    }

    /// The preprocessor's registered name.
    pub fn name(&self) -> (n: &'static str)
        ensures
            n@ == "qr"@,
    {
        "qr"
    }

    /// Every renderer is supported.
    pub fn supports_renderer(&self, renderer: &str) -> (r: bool)
        ensures
            r,
    {
        let _ = renderer;
        true
    }
}

/// Does the marker occur in any chapter?
pub open spec fn spec_marker_in_book(book: Seq<ChapterView>, m: Seq<u8>) -> bool {
    exists|i: int| 0 <= i < book.len() && spec_contains(#[trigger] book[i].content, m)
}

pub fn marker_in_book(book: &Vec<Chapter>, marker: &Vec<u8>) -> (r: bool)
    ensures
        r == spec_marker_in_book(book@.map_values(|c: Chapter| c@), marker@),
{
    let ghost bv = book@.map_values(|c: Chapter| c@);
    let mut i: usize = 0;
    while i < book.len()
        invariant
            bv == book@.map_values(|c: Chapter| c@),
            i <= bv.len(),
            forall|j: int| 0 <= j < i ==> !spec_contains(#[trigger] bv[j].content, marker@),
        decreases bv.len() - i,
    {
        proof {
            assert(bv[i as int] == book@[i as int]@);
        }
        if contains_bytes(&book[i].content, marker) {
            proof {
                assert(spec_contains(
                    book@.map_values(|c: Chapter| c@)[i as int].content,
                    marker@,
                ));
            }
            return true;
        }
        i = i + 1;
    }
    false
}

/// The effective profile of a named override: the override merged over the
/// default profile, then over the bare-table defaults when those exist.
/// Marker and explicit output path still come from the override alone,
/// since neither field ever inherits.
pub open spec fn spec_effective_profile(
    base: ProfileView,
    custom_defaults: Option<ProfileView>,
    child: ProfileView,
) -> ProfileView {
    let first = spec_inherit(base, child);
    match custom_defaults {
        None => first,
        Some(cd) => spec_inherit(cd, first),
    }
}

/// The profiles of one run, in order: the default profile (unless a bare
/// override table suppresses it), then the effective named overrides;
/// profiles without a marker or without both payload and output path are
/// dropped.
pub open spec fn spec_built_customs(
    base: ProfileView,
    custom_defaults: Option<ProfileView>,
    customs: Seq<crate::config::NamedProfileView>,
) -> Seq<ProfileView>
    decreases customs.len(),
{
    if customs.len() == 0 {
        Seq::empty()
    } else {
        let rest = spec_built_customs(base, custom_defaults, customs.drop_last());
        let eff = spec_effective_profile(base, custom_defaults, customs.last().profile);
        if spec_profile_valid(eff) {
            rest.push(eff)
        } else {
            rest
        }
    }
}

pub open spec fn spec_build_profiles(
    cfg: QrConfigView,
    has_bare_custom: bool,
    custom_defaults: Option<ProfileView>,
) -> Seq<ProfileView> {
    let base = spec_default_profile(cfg);
    let head: Seq<ProfileView> = if !has_bare_custom && spec_profile_valid(base) {
        seq![base]
    } else {
        Seq::empty()
    };
    head + spec_built_customs(base, custom_defaults, cfg.custom)
}

/// The warnings of profile building: the suppressed or incomplete default,
/// then one warning per dropped named override.
pub open spec fn spec_build_head_diags(cfg: QrConfigView, has_bare_custom: bool) -> Seq<DiagView> {
    let base = spec_default_profile(cfg);
    if has_bare_custom {
        seq![DiagView::SuppressedDefault]
    } else if !spec_profile_valid(base) {
        seq![DiagView::MissingPayload { name: spec_default_marker() }]
    } else {
        Seq::empty()
    }
}

pub open spec fn spec_build_custom_diags(
    base: ProfileView,
    custom_defaults: Option<ProfileView>,
    customs: Seq<crate::config::NamedProfileView>,
) -> Seq<DiagView>
    decreases customs.len(),
{
    if customs.len() == 0 {
        Seq::empty()
    } else {
        let prior = spec_build_custom_diags(base, custom_defaults, customs.drop_last());
        let np = customs.last();
        let eff = spec_effective_profile(base, custom_defaults, np.profile);
        if np.profile.marker.is_none() {
            prior.push(DiagView::MissingMarker { name: np.name })
        } else if !spec_profile_valid(eff) {
            prior.push(DiagView::MissingPayload { name: np.name })
        } else {
            prior
        }
    }
}

pub open spec fn spec_build_diags(
    cfg: QrConfigView,
    has_bare_custom: bool,
    custom_defaults: Option<ProfileView>,
) -> Seq<DiagView> {
    spec_build_head_diags(cfg, has_bare_custom) + spec_build_custom_diags(
        spec_default_profile(cfg),
        custom_defaults,
        cfg.custom,
    )
}

/// View of an optional profile.
pub open spec fn view_opt_profile(o: Option<Profile>) -> Option<ProfileView> {
    match o {
        Some(p) => Some(p@),
        None => None,
    }
}

/// Builds the effective, validated profile list for one run. A bare
/// override table (present but with no named entries) suppresses the
/// default profile; bare-table defaults, when given, sit between the
/// default profile and each named override in the inheritance chain.
pub fn build_profiles(
    cfg: &QrConfig,
    has_bare_custom: bool,
    custom_defaults: &Option<Profile>,
    diags: &mut Vec<Diag>,
) -> (out: Vec<Profile>)
    ensures
        out@.map_values(|p: Profile| p@) == spec_build_profiles(
            cfg@,
            has_bare_custom,
            view_opt_profile(*custom_defaults),
        ),
        view_diags(final(diags)@) == view_diags(old(diags)@) + spec_build_diags(
            cfg@,
            has_bare_custom,
            view_opt_profile(*custom_defaults),
        ),
{
    let ghost cdv = view_opt_profile(*custom_defaults);
    let ghost diags0 = diags@;
    let base = cfg.default_profile();
    let mut out: Vec<Profile> = Vec::new();
    if has_bare_custom {
        diags.push(Diag::SuppressedDefault);
    } else if base.is_valid() {
        out.push(base.duplicate());
    } else {
        diags.push(Diag::MissingPayload { name: crate::config::default_marker() });
    }
    let ghost head = if !has_bare_custom && spec_profile_valid(base@) {
        seq![base@]
    } else {
        Seq::<ProfileView>::empty()
    };
    proof {
        assert(out@.map_values(|p: Profile| p@) =~= head + spec_built_customs(
            base@,
            cdv,
            cfg@.custom.take(0),
        ));
        assert(view_diags(diags@) =~= diags0 .map_values(|x: Diag| x@)
            + spec_build_head_diags(cfg@, has_bare_custom) + spec_build_custom_diags(
            base@,
            cdv,
            cfg@.custom.take(0),
        ));
    }
    let mut i: usize = 0;
    while i < cfg.custom.len()
        invariant
            i <= cfg.custom@.len(),
            base@ == spec_default_profile(cfg@),
            cdv == view_opt_profile(*custom_defaults),
            head == if !has_bare_custom && spec_profile_valid(spec_default_profile(cfg@)) {
                seq![spec_default_profile(cfg@)]
            } else {
                Seq::<ProfileView>::empty()
            },
            out@.map_values(|p: Profile| p@) == head + spec_built_customs(
                base@,
                cdv,
                cfg@.custom.take(i as int),
            ),
            view_diags(diags@) == view_diags(diags0) + spec_build_head_diags(
                cfg@,
                has_bare_custom,
            ) + spec_build_custom_diags(base@, cdv, cfg@.custom.take(i as int)),
        decreases cfg.custom@.len() - i,
    {
        let np = &cfg.custom[i];
        let ghost out_before = out@.map_values(|p: Profile| p@);
        let ghost diags_before = view_diags(diags@);
        let first = QrConfig::inherit(&base, &np.profile);
        let eff: Profile;
        match custom_defaults {
            Some(cd) => {
                eff = QrConfig::inherit(cd, &first);
                proof {
                    assert(cdv == Some(cd@));
                    assert(eff@ == spec_effective_profile(base@, cdv, np.profile@));
                }
            },
            None => {
                eff = first;
                proof {
                    assert(cdv.is_none());
                    assert(eff@ == spec_effective_profile(base@, cdv, np.profile@));
                }
            },
        }
        if np.profile.marker.is_none() {
            diags.push(Diag::MissingMarker { name: copy_bytes(&np.name) });
        } else if !eff.is_valid() {
            diags.push(Diag::MissingPayload { name: copy_bytes(&np.name) });
        } else {
            out.push(eff);
        }
        i = i + 1;
        proof {
            let cv = cfg@.custom;
            assert(cv.take(i as int).drop_last() =~= cv.take(i - 1));
            assert(cv.take(i as int).last() == cv[i - 1]);
            assert(cv[i - 1] == cfg.custom@[i - 1]@);
            assert(cv[i - 1].profile == np.profile@);
            let effs = spec_effective_profile(base@, cdv, cv.take(i as int).last().profile);
            assert(effs == eff@);
            if np.profile@.marker.is_none() {
                assert(spec_built_customs(base@, cdv, cv.take(i as int))
                    == spec_built_customs(base@, cdv, cv.take(i - 1)));
                assert(spec_build_custom_diags(base@, cdv, cv.take(i as int))
                    == spec_build_custom_diags(base@, cdv, cv.take(i - 1)).push(
                    DiagView::MissingMarker { name: cv[i - 1].name },
                ));
                assert(view_diags(diags@) =~= diags_before.push(
                    DiagView::MissingMarker { name: cv[i - 1].name },
                ));
            } else if !spec_profile_valid(effs) {
                assert(spec_built_customs(base@, cdv, cv.take(i as int))
                    == spec_built_customs(base@, cdv, cv.take(i - 1)));
                assert(spec_build_custom_diags(base@, cdv, cv.take(i as int))
                    == spec_build_custom_diags(base@, cdv, cv.take(i - 1)).push(
                    DiagView::MissingPayload { name: cv[i - 1].name },
                ));
                assert(view_diags(diags@) =~= diags_before.push(
                    DiagView::MissingPayload { name: cv[i - 1].name },
                ));
            } else {
                assert(spec_built_customs(base@, cdv, cv.take(i as int))
                    == spec_built_customs(base@, cdv, cv.take(i - 1)).push(effs));
                assert(out@.map_values(|p: Profile| p@) =~= out_before.push(effs));
                assert(spec_build_custom_diags(base@, cdv, cv.take(i as int))
                    == spec_build_custom_diags(base@, cdv, cv.take(i - 1)));
            }
            assert(out@.map_values(|p: Profile| p@) =~= head + spec_built_customs(
                base@,
                cdv,
                cv.take(i as int),
            ));
            assert(view_diags(diags@) =~= view_diags(diags0) + spec_build_head_diags(
                cfg@,
                has_bare_custom,
            ) + spec_build_custom_diags(base@, cdv, cv.take(i as int)));
        }
    }
    proof {
        assert(cfg@.custom.take(cfg@.custom.len() as int) =~= cfg@.custom);
    }
    out
}

/// One entry of the output-path registry: which marker last claimed a
/// path.
#[derive(Clone, Debug)]
pub struct PathMarker {
    pub path: Vec<u8>,
    pub marker: Vec<u8>,
}

impl View for PathMarker {
    type V = (Seq<u8>, Seq<u8>);

    open spec fn view(&self) -> (Seq<u8>, Seq<u8>) {
        (self.path@, self.marker@)
    }
}

/// Index of the first entry for `path`, or the length when there is none.
pub open spec fn spec_find_key(seen: Seq<(Seq<u8>, Seq<u8>)>, path: Seq<u8>) -> int
    decreases seen.len(),
{
    if seen.len() == 0 {
        0
    } else if seen[0].0 == path {
        0
    } else {
        1 + spec_find_key(seen.skip(1), path)
    }
}

pub open spec fn spec_lookup(seen: Seq<(Seq<u8>, Seq<u8>)>, path: Seq<u8>) -> Option<Seq<u8>> {
    let k = spec_find_key(seen, path);
    if k < seen.len() {
        Some(seen[k].1)
    } else {
        None
    }
}

/// Registration is an insert: an existing entry for the path is replaced
/// (last writer wins), a new path is appended.
pub open spec fn spec_register(
    seen: Seq<(Seq<u8>, Seq<u8>)>,
    path: Seq<u8>,
    marker: Seq<u8>,
) -> Seq<(Seq<u8>, Seq<u8>)> {
    let k = spec_find_key(seen, path);
    if k < seen.len() {
        seen.update(k, (path, marker))
    } else {
        seen.push((path, marker))
    }
}

pub proof fn lemma_find_key(seen: Seq<(Seq<u8>, Seq<u8>)>, path: Seq<u8>, k: int)
    requires
        0 <= k <= seen.len(),
        forall|j: int| 0 <= j < k ==> (#[trigger] seen[j]).0 != path,
        k == seen.len() || seen[k].0 == path,
    ensures
        spec_find_key(seen, path) == k,
    decreases k,
{
    if k > 0 {
        lemma_find_key(seen.skip(1), path, k - 1);
    }
}

/// Records that `marker` writes `path`; returns the marker that previously
/// claimed the same path, if any.
pub fn register_path(seen: &mut Vec<PathMarker>, path: &Vec<u8>, marker: &Vec<u8>) -> (prev:
    Option<Vec<u8>>)
    ensures
        view_opt_bytes(prev) == spec_lookup(
            old(seen)@.map_values(|e: PathMarker| e@),
            path@,
        ),
        final(seen)@.map_values(|e: PathMarker| e@) == spec_register(
            old(seen)@.map_values(|e: PathMarker| e@),
            path@,
            marker@,
        ),
{
    let ghost sv = seen@.map_values(|e: PathMarker| e@);
    let mut i: usize = 0;
    while i < seen.len()
        invariant
            seen@ == old(seen)@,
            sv == seen@.map_values(|e: PathMarker| e@),
            i <= sv.len(),
            forall|j: int| 0 <= j < i ==> (#[trigger] sv[j]).0 != path@,
        decreases sv.len() - i,
    {
        proof {
            assert(sv[i as int] == seen@[i as int]@);
        }
        if bytes_eq(&seen[i].path, path) {
            proof {
                lemma_find_key(sv, path@, i as int);
            }
            let prev_marker = copy_bytes(&seen[i].marker);
            let entry = PathMarker { path: copy_bytes(path), marker: copy_bytes(marker) };
            seen.set(i, entry);
            proof {
                assert(seen@.map_values(|e: PathMarker| e@) =~= spec_register(sv, path@, marker@));
            }
            return Some(prev_marker);
        }
        i = i + 1;
    }
    proof {
        lemma_find_key(sv, path@, i as int);
    }
    seen.push(PathMarker { path: copy_bytes(path), marker: copy_bytes(marker) });
    proof {
        assert(seen@.map_values(|e: PathMarker| e@) =~= spec_register(sv, path@, marker@));
    }
    None
}

/// Why a profile produces no work in this run.
#[derive(Clone, Copy, Debug, PartialEq, Eq, Structural)]
pub enum SkipReason {
    /// The profile is disabled.
    Disabled,
    /// Its marker occurs in no chapter.
    Unused,
    /// Its payload could not be resolved, and the failure mode continues.
    Unresolved,
    /// Its derived default output file already exists and no explicit path
    /// was given; it is skipped rather than overwritten.
    Refused,
}

/// Why the whole run must stop at this profile.
#[derive(Clone, Copy, Debug, PartialEq, Eq, Structural)]
pub enum FailReason {
    /// Its payload could not be resolved, and the failure mode bails.
    UnresolvedUrl,
    /// A configured color is malformed; a wrong image would be worse than
    /// a stopped build.
    BadColor(ColorError),
}

/// Everything the encoder and the injection need for one profile.
#[derive(Clone, Debug, PartialEq, Eq)]
pub struct RenderPlan {
    pub marker: Vec<u8>,
    pub url: Vec<u8>,
    pub path: Vec<u8>,
    pub fit_w: u32,
    pub fit_h: u32,
    pub margin: u32,
    pub shape: ShapeKind,
    pub background: Option<Rgba>,
    pub module: Option<Rgba>,
}

pub ghost struct RenderPlanView {
    pub marker: Seq<u8>,
    pub url: Seq<u8>,
    pub path: Seq<u8>,
    pub fit_w: u32,
    pub fit_h: u32,
    pub margin: u32,
    pub shape: ShapeKind,
    pub background: Option<Rgba>,
    pub module: Option<Rgba>,
}

impl View for RenderPlan {
    type V = RenderPlanView;

    open spec fn view(&self) -> RenderPlanView {
        RenderPlanView {
            marker: self.marker@,
            url: self.url@,
            path: self.path@,
            fit_w: self.fit_w,
            fit_h: self.fit_h,
            margin: self.margin,
            shape: self.shape,
            background: self.background,
            module: self.module,
        }
    }
}

/// The planned outcome for one profile.
#[derive(Clone, Debug, PartialEq, Eq)]
pub enum ProfileAction {
    Skip(SkipReason),
    Fail(FailReason),
    Render(RenderPlan),
}

pub ghost enum ProfileActionView {
    Skip(SkipReason),
    Fail(FailReason),
    Render(RenderPlanView),
}

impl View for ProfileAction {
    type V = ProfileActionView;

    open spec fn view(&self) -> ProfileActionView {
        match self {
            ProfileAction::Skip(s) => ProfileActionView::Skip(*s),
            ProfileAction::Fail(f) => ProfileActionView::Fail(*f),
            ProfileAction::Render(p) => ProfileActionView::Render(p@),
        }
    }
}

/// The margin handed to the encoder when none is configured.
pub open spec fn spec_margin(m: Option<u32>) -> u32 {
    match m {
        Some(v) => v,
        None => 2u32,
    }
}

/// Everything planning one profile produces: the action, the warnings
/// raised, and the path registry afterwards.
pub ghost struct PlanOutcome {
    pub action: ProfileActionView,
    pub diags: Seq<DiagView>,
    pub seen: Seq<(Seq<u8>, Seq<u8>)>,
}

/// The plan for one profile, in the order the run applies its rules: a
/// disabled profile is skipped; an unused marker is skipped with a
/// warning; an unresolvable payload skips or stops the run per the
/// failure mode; the output path is resolved and registered, warning when
/// another marker already claimed it; a derived default path that already
/// exists on disk is refused rather than overwritten; a malformed color
/// stops the run; otherwise the render parameters are assembled.
pub open spec fn spec_plan_profile(
    p: ProfileView,
    book: Seq<ChapterView>,
    env_repo: Option<Seq<u8>>,
    localhost_qr: bool,
    src_dir: Seq<u8>,
    derived_default_exists: bool,
    on_failure: FailureMode,
    seen: Seq<(Seq<u8>, Seq<u8>)>,
) -> PlanOutcome
    recommends
        p.marker.is_some(),
{
    let m = p.marker.unwrap();
    if !spec_enabled(p.enable) {
        PlanOutcome {
            action: ProfileActionView::Skip(SkipReason::Disabled),
            diags: Seq::empty(),
            seen,
        }
    } else if !spec_marker_in_book(book, m) {
        PlanOutcome {
            action: ProfileActionView::Skip(SkipReason::Unused),
            diags: seq![DiagView::UnusedMarker { marker: m }],
            seen,
        }
    } else {
        let url_diags = spec_resolve_url_diags(p.url);
        match spec_resolve_url(p.url, env_repo, localhost_qr) {
            Err(_) => match on_failure {
                FailureMode::Continue => PlanOutcome {
                    action: ProfileActionView::Skip(SkipReason::Unresolved),
                    diags: url_diags + seq![DiagView::UnresolvedUrl { marker: m }],
                    seen,
                },
                FailureMode::Bail => PlanOutcome {
                    action: ProfileActionView::Fail(FailReason::UnresolvedUrl),
                    diags: url_diags,
                    seen,
                },
            },
            Ok(u) => {
                let path = spec_resolve_profile_path(src_dir, p.qr_path, m);
                let prev = spec_lookup(seen, path);
                let seen2 = spec_register(seen, path, m);
                let coll: Seq<DiagView> = match prev {
                    Some(pm) => if pm != m {
                        seq![DiagView::PathCollision { prev: pm, marker: m, path }]
                    } else {
                        Seq::empty()
                    },
                    None => Seq::empty(),
                };
                let d1 = url_diags + coll;
                if path == spec_derived_default_path(src_dir, spec_default_marker())
                    && p.qr_path.is_none() && derived_default_exists {
                    PlanOutcome {
                        action: ProfileActionView::Skip(SkipReason::Refused),
                        diags: d1 + seq![DiagView::RefusedOverwrite { marker: m, path }],
                        seen: seen2,
                    }
                } else {
                    let fd = spec_fit_diags(p.fit);
                    let dims = spec_fit_dims(p.fit);
                    match spec_opt_color(p.background) {
                        Err(e) => PlanOutcome {
                            action: ProfileActionView::Fail(FailReason::BadColor(e)),
                            diags: d1 + fd,
                            seen: seen2,
                        },
                        Ok(bg) => match spec_opt_color(p.module) {
                            Err(e) => PlanOutcome {
                                action: ProfileActionView::Fail(FailReason::BadColor(e)),
                                diags: d1 + fd,
                                seen: seen2,
                            },
                            Ok(fg) => PlanOutcome {
                                action: ProfileActionView::Render(
                                    RenderPlanView {
                                        marker: m,
                                        url: u,
                                        path,
                                        fit_w: dims.0,
                                        fit_h: dims.1,
                                        margin: spec_margin(p.margin),
                                        shape: spec_to_shape(p.shape),
                                        background: bg,
                                        module: fg,
                                    },
                                ),
                                diags: d1 + fd,
                                seen: seen2,
                            },
                        },
                    }
                }
            },
        }
    }
}

/// Plans the work for one profile, updating the path registry and
/// appending the run's warnings.
pub fn plan_profile(
    profile: &Profile,
    book: &Vec<Chapter>,
    env_repo: &Option<Vec<u8>>,
    localhost_qr: bool,
    src_dir: &Vec<u8>,
    derived_default_exists: bool,
    on_failure: &FailureMode,
    seen: &mut Vec<PathMarker>,
    diags: &mut Vec<Diag>,
) -> (action: ProfileAction)
    requires
        profile@.marker.is_some(),
    ensures
        ({
            let outcome = spec_plan_profile(
                profile@,
                book@.map_values(|c: Chapter| c@),
                view_opt_bytes(*env_repo),
                localhost_qr,
                src_dir@,
                derived_default_exists,
                *on_failure,
                old(seen)@.map_values(|e: PathMarker| e@),
            );
            action@ == outcome.action && view_diags(final(diags)@) == view_diags(old(diags)@)
                + outcome.diags && final(seen)@.map_values(|e: PathMarker| e@) == outcome.seen
        }),
{
    let ghost outcome = spec_plan_profile(
        profile@,
        book@.map_values(|c: Chapter| c@),
        view_opt_bytes(*env_repo),
        localhost_qr,
        src_dir@,
        derived_default_exists,
        *on_failure,
        seen@.map_values(|e: PathMarker| e@),
    );
    let ghost diags0 = view_diags(diags@);
    let marker = match &profile.marker {
        Some(m) => m,
        None => {
            proof {
                assert(false);
            }
            unreached()
        },
    };
    proof {
        assert(profile@.marker == Some(marker@));
    }
    if !profile.is_enabled() {
        return ProfileAction::Skip(SkipReason::Disabled);
    }
    if !marker_in_book(book, marker) {
        diags.push(Diag::UnusedMarker { marker: copy_bytes(marker) });
        proof {
            assert(spec_enabled(profile@.enable));
            assert(!spec_marker_in_book(book@.map_values(|c: Chapter| c@), marker@));
            assert(outcome.action == ProfileActionView::Skip(SkipReason::Unused));
            assert(outcome.diags == seq![DiagView::UnusedMarker { marker: marker@ }]);
            assert(view_diags(diags@) =~= diags0.push(
                DiagView::UnusedMarker { marker: marker@ },
            ));
            assert(diags0 + outcome.diags =~= diags0.push(
                DiagView::UnusedMarker { marker: marker@ },
            ));
            assert(view_diags(diags@) =~= diags0 + outcome.diags);
        }
        return ProfileAction::Skip(SkipReason::Unused);
    }
    let url = match crate::url::resolve_url(&profile.url, env_repo, localhost_qr, diags) {
        Ok(u) => u,
        Err(_) => {
            match on_failure {
                FailureMode::Continue => {
                    diags.push(Diag::UnresolvedUrl { marker: copy_bytes(marker) });
                    proof {
                        assert(view_diags(diags@) =~= diags0 + outcome.diags);
                    }
                    return ProfileAction::Skip(SkipReason::Unresolved);
                },
                FailureMode::Bail => {
                    return ProfileAction::Fail(FailReason::UnresolvedUrl);
                },
            }
        },
    };
    let path = crate::util::resolve_profile_path(src_dir, &profile.qr_path, marker);
    let ghost d_after_url = view_diags(diags@);
    let ghost seen0 = seen@.map_values(|e: PathMarker| e@);
    let ghost collv: Seq<DiagView> = match spec_lookup(seen0, path@) {
        Some(pm) => if pm != marker@ {
            seq![DiagView::PathCollision { prev: pm, marker: marker@, path: path@ }]
        } else {
            Seq::empty()
        },
        None => Seq::empty(),
    };
    let prev = register_path(seen, &path, marker);
    match &prev {
        Some(pm) => {
            if !bytes_eq(pm, marker) {
                diags.push(
                    Diag::PathCollision {
                        prev: copy_bytes(pm),
                        marker: copy_bytes(marker),
                        path: copy_bytes(&path),
                    },
                );
                proof {
                    assert(collv == seq![
                        DiagView::PathCollision { prev: pm@, marker: marker@, path: path@ },
                    ]);
                    assert(view_diags(diags@) =~= d_after_url + collv);
                }
            } else {
                proof {
                    assert(collv =~= Seq::<DiagView>::empty());
                    assert(view_diags(diags@) =~= d_after_url + collv);
                }
            }
        },
        None => {
            proof {
                assert(collv =~= Seq::<DiagView>::empty());
                assert(view_diags(diags@) =~= d_after_url + collv);
            }
        },
    }
    let ghost d2 = view_diags(diags@);
    proof {
        assert(d2 =~= diags0 + (spec_resolve_url_diags(profile@.url) + collv));
    }
    let default_m = crate::config::default_marker();
    let derived = crate::util::derived_default_path(src_dir, &default_m);
    if bytes_eq(&path, &derived) && profile.qr_path.is_none() && derived_default_exists {
        diags.push(
            Diag::RefusedOverwrite { marker: copy_bytes(marker), path: copy_bytes(&path) },
        );
        proof {
            assert(view_diags(diags@) =~= d2.push(
                DiagView::RefusedOverwrite { marker: marker@, path: path@ },
            ));
            assert(diags0 + outcome.diags =~= d2.push(
                DiagView::RefusedOverwrite { marker: marker@, path: path@ },
            ));
            assert(view_diags(diags@) =~= diags0 + outcome.diags);
        }
        return ProfileAction::Skip(SkipReason::Refused);
    }
    let dims = crate::util::pass_fit_dims(&profile.fit, diags);
    let ghost d3 = view_diags(diags@);
    proof {
        assert(d3 =~= d2 + crate::util::spec_fit_diags(profile@.fit));
        assert(diags0 + outcome.diags =~= d3);
    }
    let margin = match profile.margin {
        Some(v) => v,
        None => 2,
    };
    let shape = profile.shape.to_shape();
    let background = match profile.background_color() {
        Ok(bg) => bg,
        Err(e) => {
            proof {
                assert(view_diags(diags@) =~= diags0 + outcome.diags);
            }
            return ProfileAction::Fail(FailReason::BadColor(e));
        },
    };
    let module = match profile.module_color() {
        Ok(fg) => fg,
        Err(e) => {
            proof {
                assert(view_diags(diags@) =~= diags0 + outcome.diags);
            }
            return ProfileAction::Fail(FailReason::BadColor(e));
        },
    };
    let plan = RenderPlan {
        marker: copy_bytes(marker),
        url,
        path,
        fit_w: dims.0,
        fit_h: dims.1,
        margin,
        shape,
        background,
        module,
    };
    proof {
        assert(view_diags(diags@) =~= diags0 + outcome.diags);
    }
    ProfileAction::Render(plan)
}

} // verus!
