//! Configuration value model: flexible colors, shape flags, image fit,
//! profiles and their merge rules.

use vstd::prelude::*;

use crate::bytes::{bytes_eq, copy_bytes, dup_opt_bytes, pick_opt_bytes, view_opt_bytes};

verus! {

/// What to do when a profile's payload cannot be resolved.
#[derive(Clone, Copy, Debug, PartialEq, Eq, Structural)]
pub enum FailureMode {
    Continue,
    Bail,
}

impl Default for FailureMode {
    fn default() -> (r: Self)
        ensures
            r == FailureMode::Continue,
    {
        FailureMode::Continue
    }
}

/// A normalized color value: red, green, blue, alpha.
#[derive(Clone, Copy, Debug, PartialEq, Eq, Structural)]
pub struct Rgba {
    pub r: u8,
    pub g: u8,
    pub b: u8,
    pub a: u8,
}

/// Why a flexible color value failed to normalize.
#[derive(Clone, Copy, Debug, PartialEq, Eq, Structural)]
pub enum ColorError {
    /// The hex body (after an optional leading `#`) is not 3, 6 or 8 digits.
    Length,
    /// The hex body contains a byte that is not a hex digit.
    Digit,
}

/// Flexible color input: hex text or an RGB / RGBA byte array.
///
/// Accepted hex text: an optional leading `#`, then 3, 6 or 8 hex digits.
#[derive(Clone, Debug)]
pub enum ColorCfg {
    Hex(Vec<u8>),
    Rgba([u8; 4]),
    Rgb([u8; 3]),
}

pub ghost enum ColorCfgView {
    Hex(Seq<u8>),
    Rgba(Seq<u8>),
    Rgb(Seq<u8>),
}

impl View for ColorCfg {
    type V = ColorCfgView;

    open spec fn view(&self) -> ColorCfgView {
        match self {
            ColorCfg::Hex(s) => ColorCfgView::Hex(s@),
            ColorCfg::Rgba(a) => ColorCfgView::Rgba(a@),
            ColorCfg::Rgb(a) => ColorCfgView::Rgb(a@),
        }
    }
}

pub open spec fn is_hex_digit(b: u8) -> bool {
    (48 <= b && b <= 57) || (97 <= b && b <= 102) || (65 <= b && b <= 70)
}

pub open spec fn hex_val(b: u8) -> u8 {
    if 48 <= b && b <= 57 {
        (b - 48) as u8
    } else if 97 <= b && b <= 102 {
        (b - 97 + 10) as u8
    } else {
        (b - 65 + 10) as u8
    }
}

/// Value of the two-digit hex pair `hi lo`.
pub open spec fn hex_pair(hi: u8, lo: u8) -> u8 {
    (16 * hex_val(hi) + hex_val(lo)) as u8
}

/// Value of the shorthand digit `d`, doubled as in `#abc` -> `#aabbcc`.
pub open spec fn hex_short(d: u8) -> u8 {
    (17 * hex_val(d)) as u8
}

/// The hex body: the input with one leading `#` removed, when present.
pub open spec fn spec_hex_body(s: Seq<u8>) -> Seq<u8> {
    if s.len() > 0 && s[0] == 35 {
        s.skip(1)
    } else {
        s
    }
}

pub open spec fn all_hex_digits(s: Seq<u8>) -> bool {
    forall|i: int| 0 <= i < s.len() ==> is_hex_digit(#[trigger] s[i])
}

/// Normalization of hex text: 3 digits give doubled channels with full
/// alpha, 6 digits give channels with full alpha, 8 digits also carry alpha.
pub open spec fn spec_hex_color(s: Seq<u8>) -> Result<Rgba, ColorError> {
    let b = spec_hex_body(s);
    if b.len() != 3 && b.len() != 6 && b.len() != 8 {
        Err(ColorError::Length)
    } else if !all_hex_digits(b) {
        Err(ColorError::Digit)
    } else if b.len() == 3 {
        Ok(Rgba { r: hex_short(b[0]), g: hex_short(b[1]), b: hex_short(b[2]), a: 255 })
    } else {
        Ok(
            Rgba {
                r: hex_pair(b[0], b[1]),
                g: hex_pair(b[2], b[3]),
                b: hex_pair(b[4], b[5]),
                a: if b.len() == 8 {
                    hex_pair(b[6], b[7])
                } else {
                    255
                },
            },
        )
    }
}

/// Normalization of any flexible color input.
pub open spec fn spec_to_color(c: ColorCfgView) -> Result<Rgba, ColorError> {
    match c {
        ColorCfgView::Hex(s) => spec_hex_color(s),
        ColorCfgView::Rgba(a) => Ok(Rgba { r: a[0], g: a[1], b: a[2], a: a[3] }),
        ColorCfgView::Rgb(a) => Ok(Rgba { r: a[0], g: a[1], b: a[2], a: 255 }),
    }
}

fn hex_val_of(b: u8) -> (v: u8)
    requires
        is_hex_digit(b),
    ensures
        v == hex_val(b),
        v < 16,
{
    if 48 <= b && b <= 57 {
        b - 48
    } else if 97 <= b && b <= 102 {
        b - 97 + 10
    } else {
        b - 65 + 10
    }
}

fn hex_pair_of(hi: u8, lo: u8) -> (v: u8)
    requires
        is_hex_digit(hi),
        is_hex_digit(lo),
    ensures
        v == hex_pair(hi, lo),
{
    16 * hex_val_of(hi) + hex_val_of(lo)
}

fn hex_short_of(d: u8) -> (v: u8)
    requires
        is_hex_digit(d),
    ensures
        v == hex_short(d),
{
    17 * hex_val_of(d)
}

/// Normalizes hex text to an RGBA value, or reports why it cannot be.
fn hex_color(s: &Vec<u8>) -> (r: Result<Rgba, ColorError>)
    ensures
        r == spec_hex_color(s@),
{
    let start: usize = if s.len() > 0 && s[0] == 35 {
        1
    } else {
        0
    };
    let n = s.len() - start;
    proof {
        assert(spec_hex_body(s@) =~= s@.subrange(start as int, s@.len() as int));
    }
    if n != 3 && n != 6 && n != 8 {
        return Err(ColorError::Length);
    }
    let mut i: usize = 0;
    while i < n
        invariant
            start + n == s@.len(),
            n == 3 || n == 6 || n == 8,
            i <= n,
            spec_hex_body(s@) == s@.subrange(start as int, s@.len() as int),
            forall|j: int| 0 <= j < i ==> is_hex_digit(#[trigger] spec_hex_body(s@)[j]),
        decreases n - i,
    {
        let b = s[start + i];
        proof {
            assert(spec_hex_body(s@)[i as int] == b);
        }
        if !((48 <= b && b <= 57) || (97 <= b && b <= 102) || (65 <= b && b <= 70)) {
            proof {
                assert(spec_hex_body(s@).len() == n);
                assert(!is_hex_digit(spec_hex_body(s@)[i as int]));
                assert(!all_hex_digits(spec_hex_body(s@)));
            }
            return Err(ColorError::Digit);
        }
        i = i + 1;
    }
    let ghost body = spec_hex_body(s@);
    if n == 3 {
        Ok(
            Rgba {
                r: hex_short_of(s[start]),
                g: hex_short_of(s[start + 1]),
                b: hex_short_of(s[start + 2]),
                a: 255,
            },
        )
    } else {
        let a: u8 = if n == 8 {
            hex_pair_of(s[start + 6], s[start + 7])
        } else {
            255
        };
        Ok(
            Rgba {
                r: hex_pair_of(s[start], s[start + 1]),
                g: hex_pair_of(s[start + 2], s[start + 3]),
                b: hex_pair_of(s[start + 4], s[start + 5]),
                a,
            },
        )
    }
}

impl ColorCfg {
    /// Resolves this flexible color to a single RGBA value; malformed hex
    /// text is rejected rather than silently defaulted.
    pub fn to_color(&self) -> (r: Result<Rgba, ColorError>)
        ensures
            r == spec_to_color(self@),
    {
        match self {
            ColorCfg::Hex(s) => hex_color(s),
            ColorCfg::Rgba(a) => Ok(Rgba { r: a[0], g: a[1], b: a[2], a: a[3] }),
            ColorCfg::Rgb(a) => Ok(Rgba { r: a[0], g: a[1], b: a[2], a: 255 }),
        }
    }

    /// A fresh copy with the same view.
    pub fn duplicate(&self) -> (r: ColorCfg)
        ensures
            r@ == self@,
    {
        match self {
            ColorCfg::Hex(s) => ColorCfg::Hex(copy_bytes(s)),
            ColorCfg::Rgba(a) => ColorCfg::Rgba(*a),
            ColorCfg::Rgb(a) => ColorCfg::Rgb(*a),
        }
    }
}

/// Optional fit for the injected image (pixels).
#[derive(Clone, Copy, Debug)]
pub struct FitConfig {
    pub width: Option<u32>,
    pub height: Option<u32>,
}

impl Default for FitConfig {
    fn default() -> (r: Self)
        ensures
            r.width.is_none(),
            r.height.is_none(),
    {
        FitConfig { width: None, height: None }
    }
}

/// The effective module shape, selected from the boolean flags.
#[derive(Clone, Copy, Debug, PartialEq, Eq, Structural)]
pub enum ShapeKind {
    Square,
    Circle,
    RoundedSquare,
    Vertical,
    Horizontal,
    Diamond,
}

/// Boolean flags for the module shape. When several are set, a fixed
/// precedence picks the effective shape: circle, then rounded square,
/// then vertical, then horizontal, then diamond; square is the default.
#[derive(Clone, Copy, Debug, PartialEq, Eq, Structural)]
pub struct ShapeFlags {
    pub square: bool,
    pub circle: bool,
    pub rounded_square: bool,
    pub vertical: bool,
    pub horizontal: bool,
    pub diamond: bool,
}

impl Default for ShapeFlags {
    fn default() -> (r: Self)
        ensures
            r == spec_no_shape_flags(),
    {
        ShapeFlags {
            square: false,
            circle: false,
            rounded_square: false,
            vertical: false,
            horizontal: false,
            diamond: false,
        }
    }
}

pub open spec fn spec_no_shape_flags() -> ShapeFlags {
    ShapeFlags {
        square: false,
        circle: false,
        rounded_square: false,
        vertical: false,
        horizontal: false,
        diamond: false,
    }
}

/// The fixed precedence over the shape flags.
pub open spec fn spec_to_shape(f: ShapeFlags) -> ShapeKind {
    if f.circle {
        ShapeKind::Circle
    } else if f.rounded_square {
        ShapeKind::RoundedSquare
    } else if f.vertical {
        ShapeKind::Vertical
    } else if f.horizontal {
        ShapeKind::Horizontal
    } else if f.diamond {
        ShapeKind::Diamond
    } else {
        ShapeKind::Square
    }
}

pub open spec fn spec_any_set(f: ShapeFlags) -> bool {
    f.square || f.circle || f.rounded_square || f.vertical || f.horizontal || f.diamond
}

impl ShapeFlags {
    /// The effective shape under the fixed precedence; total over all flag
    /// combinations.
    pub fn to_shape(&self) -> (k: ShapeKind)
        ensures
            k == spec_to_shape(*self),
    {
        if self.circle {
            ShapeKind::Circle
        } else if self.rounded_square {
            ShapeKind::RoundedSquare
        } else if self.vertical {
            ShapeKind::Vertical
        } else if self.horizontal {
            ShapeKind::Horizontal
        } else if self.diamond {
            ShapeKind::Diamond
        } else {
            ShapeKind::Square
        }
    }

    /// Is any flag set? A selector with any flag set replaces an inherited
    /// selector as a whole.
    pub fn any_set(&self) -> (r: bool)
        ensures
            r == spec_any_set(*self),
    {
        self.square || self.circle || self.rounded_square || self.vertical || self.horizontal
            || self.diamond
    }
}

/// View of an optional flexible color.
pub open spec fn view_opt_color(o: Option<ColorCfg>) -> Option<ColorCfgView> {
    match o {
        Some(c) => Some(c@),
        None => None,
    }
}

/// Resolution of an optional flexible color.
pub open spec fn spec_opt_color(o: Option<ColorCfgView>) -> Result<Option<Rgba>, ColorError> {
    match o {
        None => Ok(None),
        Some(c) => match spec_to_color(c) {
            Ok(v) => Ok(Some(v)),
            Err(e) => Err(e),
        },
    }
}

fn dup_opt_color(o: &Option<ColorCfg>) -> (r: Option<ColorCfg>)
    ensures
        view_opt_color(r) == view_opt_color(*o),
{
    match o {
        Some(c) => Some(c.duplicate()),
        None => None,
    }
}

fn pick_opt_color(first: &Option<ColorCfg>, second: &Option<ColorCfg>) -> (r: Option<ColorCfg>)
    ensures
        view_opt_color(r) == if first.is_some() {
            view_opt_color(*first)
        } else {
            view_opt_color(*second)
        },
{
    match first {
        Some(c) => Some(c.duplicate()),
        None => dup_opt_color(second),
    }
}

/// One profile: a marker, render parameters and an optional payload and
/// output path. The marker identifies where generated content is inserted;
/// a profile without one is invalid and is dropped during resolution.
#[derive(Clone, Debug)]
pub struct Profile {
    /// The literal placeholder text; `None` makes the profile invalid.
    pub marker: Option<Vec<u8>>,
    /// Optional explicit output path (relative paths are placed under the
    /// book source directory).
    pub qr_path: Option<Vec<u8>>,
    pub enable: Option<bool>,
    /// The payload text to encode.
    pub url: Option<Vec<u8>>,
    pub fit: FitConfig,
    pub margin: Option<u32>,
    pub shape: ShapeFlags,
    pub background: Option<ColorCfg>,
    pub module: Option<ColorCfg>,
}

pub ghost struct ProfileView {
    pub marker: Option<Seq<u8>>,
    pub qr_path: Option<Seq<u8>>,
    pub enable: Option<bool>,
    pub url: Option<Seq<u8>>,
    pub fit: FitConfig,
    pub margin: Option<u32>,
    pub shape: ShapeFlags,
    pub background: Option<ColorCfgView>,
    pub module: Option<ColorCfgView>,
}

impl View for Profile {
    type V = ProfileView;

    open spec fn view(&self) -> ProfileView {
        ProfileView {
            marker: view_opt_bytes(self.marker),
            qr_path: view_opt_bytes(self.qr_path),
            enable: self.enable,
            url: view_opt_bytes(self.url),
            fit: self.fit,
            margin: self.margin,
            shape: self.shape,
            background: view_opt_color(self.background),
            module: view_opt_color(self.module),
        }
    }
}

/// A profile is enabled unless `enable` is explicitly false.
pub open spec fn spec_enabled(enable: Option<bool>) -> bool {
    match enable {
        Some(b) => b,
        None => true,
    }
}

/// A profile takes part in a build only with a marker and with something to
/// place: a payload or an explicit output path.
pub open spec fn spec_profile_valid(p: ProfileView) -> bool {
    p.marker.is_some() && (p.url.is_some() || p.qr_path.is_some())
}

impl Profile {
    pub fn is_enabled(&self) -> (r: bool)
        ensures
            r == spec_enabled(self@.enable),
    {
        match self.enable {
            Some(b) => b,
            None => true,
        }
    }

    /// Does this profile carry a marker and either a payload or an explicit
    /// output path?
    pub fn is_valid(&self) -> (r: bool)
        ensures
            r == spec_profile_valid(self@),
    {
        self.marker.is_some() && (self.url.is_some() || self.qr_path.is_some())
    }

    /// The effective background color, when one is configured.
    pub fn background_color(&self) -> (r: Result<Option<Rgba>, ColorError>)
        ensures
            r == spec_opt_color(self@.background),
    {
        match &self.background {
            Some(c) => match c.to_color() {
                Ok(v) => Ok(Some(v)),
                Err(e) => Err(e),
            },
            None => Ok(None),
        }
    }

    /// The effective module (foreground) color, when one is configured.
    pub fn module_color(&self) -> (r: Result<Option<Rgba>, ColorError>)
        ensures
            r == spec_opt_color(self@.module),
    {
        match &self.module {
            Some(c) => match c.to_color() {
                Ok(v) => Ok(Some(v)),
                Err(e) => Err(e),
            },
            None => Ok(None),
        }
    }

    /// A fresh copy with the same view.
    pub fn duplicate(&self) -> (r: Profile)
        ensures
            r@ == self@,
    {
        Profile {
            marker: dup_opt_bytes(&self.marker),
            qr_path: dup_opt_bytes(&self.qr_path),
            enable: self.enable,
            url: dup_opt_bytes(&self.url),
            fit: self.fit,
            margin: self.margin,
            shape: self.shape,
            background: dup_opt_color(&self.background),
            module: dup_opt_color(&self.module),
        }
    }
}

/// A named override profile from the configuration, in its stable position.
#[derive(Clone, Debug)]
pub struct NamedProfile {
    pub name: Vec<u8>,
    pub profile: Profile,
}

pub ghost struct NamedProfileView {
    pub name: Seq<u8>,
    pub profile: ProfileView,
}

impl View for NamedProfile {
    type V = NamedProfileView;

    open spec fn view(&self) -> NamedProfileView {
        NamedProfileView { name: self.name@, profile: self.profile@ }
    }
}

/// The well-known marker carried by the default profile: `{{QR_CODE}}`.
pub open spec fn spec_default_marker() -> Seq<u8> {
    seq![123u8, 123u8, 81u8, 82u8, 95u8, 67u8, 79u8, 68u8, 69u8, 125u8, 125u8]
}

/// The default marker as a byte vector.
pub fn default_marker() -> (m: Vec<u8>)
    ensures
        m@ == spec_default_marker(),
{
    let mut m: Vec<u8> = Vec::new();
    m.push(123);
    m.push(123);
    m.push(81);
    m.push(82);
    m.push(95);
    m.push(67);
    m.push(79);
    m.push(68);
    m.push(69);
    m.push(125);
    m.push(125);
    proof {
        assert(m@ =~= spec_default_marker());
    }
    m
}

/// The whole preprocessor configuration: top-level default fields plus the
/// named override profiles in a stable order (the order the host handed
/// them over, lexicographic by name for a sorted configuration table).
#[derive(Clone, Debug)]
pub struct QrConfig {
    pub enable: Option<bool>,
    pub url: Option<Vec<u8>>,
    pub qr_path: Option<Vec<u8>>,
    pub on_failure: FailureMode,
    pub include_default: bool,
    pub fit: FitConfig,
    pub margin: Option<u32>,
    pub shape: ShapeFlags,
    pub background: Option<ColorCfg>,
    pub module: Option<ColorCfg>,
    pub custom: Vec<NamedProfile>,
}

pub ghost struct QrConfigView {
    pub enable: Option<bool>,
    pub url: Option<Seq<u8>>,
    pub qr_path: Option<Seq<u8>>,
    pub on_failure: FailureMode,
    pub include_default: bool,
    pub fit: FitConfig,
    pub margin: Option<u32>,
    pub shape: ShapeFlags,
    pub background: Option<ColorCfgView>,
    pub module: Option<ColorCfgView>,
    pub custom: Seq<NamedProfileView>,
}

impl View for QrConfig {
    type V = QrConfigView;

    open spec fn view(&self) -> QrConfigView {
        QrConfigView {
            enable: self.enable,
            url: view_opt_bytes(self.url),
            qr_path: view_opt_bytes(self.qr_path),
            on_failure: self.on_failure,
            include_default: self.include_default,
            fit: self.fit,
            margin: self.margin,
            shape: self.shape,
            background: view_opt_color(self.background),
            module: view_opt_color(self.module),
            custom: self.custom@.map_values(|np: NamedProfile| np@),
        }
    }
}

/// The default configuration: enabled, white background, black modules,
/// margin 2, the default profile included.
pub open spec fn spec_default_config() -> QrConfigView {
    QrConfigView {
        enable: Some(true),
        url: None,
        qr_path: None,
        on_failure: FailureMode::Continue,
        include_default: true,
        fit: FitConfig { width: None, height: None },
        margin: Some(2u32),
        shape: spec_no_shape_flags(),
        background: Some(ColorCfgView::Hex(seq![35u8, 70u8, 70u8, 70u8, 70u8, 70u8, 70u8, 70u8, 70u8])),
        module: Some(ColorCfgView::Hex(seq![35u8, 48u8, 48u8, 48u8, 48u8, 48u8, 48u8, 70u8, 70u8])),
        custom: Seq::empty(),
    }
}

impl Default for QrConfig {
    fn default() -> (r: Self)
        ensures
            r@ == spec_default_config(),
    {
        let mut bg: Vec<u8> = Vec::new();
        bg.push(35);
        bg.push(70);
        bg.push(70);
        bg.push(70);
        bg.push(70);
        bg.push(70);
        bg.push(70);
        bg.push(70);
        bg.push(70);
        let mut fg: Vec<u8> = Vec::new();
        fg.push(35);
        fg.push(48);
        fg.push(48);
        fg.push(48);
        fg.push(48);
        fg.push(48);
        fg.push(48);
        fg.push(70);
        fg.push(70);
        let r = QrConfig {
            enable: Some(true),
            url: None,
            qr_path: None,
            on_failure: FailureMode::Continue,
            include_default: true,
            fit: FitConfig { width: None, height: None },
            margin: Some(2),
            shape: ShapeFlags {
                square: false,
                circle: false,
                rounded_square: false,
                vertical: false,
                horizontal: false,
                diamond: false,
            },
            background: Some(ColorCfg::Hex(bg)),
            module: Some(ColorCfg::Hex(fg)),
            custom: Vec::new(),
        };
        proof {
            assert(bg@ =~= seq![35u8, 70u8, 70u8, 70u8, 70u8, 70u8, 70u8, 70u8, 70u8]);
            assert(fg@ =~= seq![35u8, 48u8, 48u8, 48u8, 48u8, 48u8, 48u8, 70u8, 70u8]);
            assert(r@.custom =~= Seq::<NamedProfileView>::empty());
        }
        r
    }
}

/// The default profile: the top-level fields lifted under the well-known
/// default marker.
pub open spec fn spec_default_profile(cfg: QrConfigView) -> ProfileView {
    ProfileView {
        marker: Some(spec_default_marker()),
        qr_path: cfg.qr_path,
        enable: cfg.enable,
        url: cfg.url,
        fit: cfg.fit,
        margin: cfg.margin,
        shape: cfg.shape,
        background: cfg.background,
        module: cfg.module,
    }
}

/// Field-level inheritance: marker and explicit output path come from the
/// override alone; every other field is the override's when present, else
/// the base's. The shape selector inherits as a whole unit; fit inherits
/// per dimension.
pub open spec fn spec_inherit(base: ProfileView, child: ProfileView) -> ProfileView {
    ProfileView {
        marker: child.marker,
        qr_path: child.qr_path,
        enable: if child.enable.is_some() {
            child.enable
        } else {
            base.enable
        },
        url: if child.url.is_some() {
            child.url
        } else {
            base.url
        },
        fit: FitConfig {
            width: if child.fit.width.is_some() {
                child.fit.width
            } else {
                base.fit.width
            },
            height: if child.fit.height.is_some() {
                child.fit.height
            } else {
                base.fit.height
            },
        },
        margin: if child.margin.is_some() {
            child.margin
        } else {
            base.margin
        },
        shape: if spec_any_set(child.shape) {
            child.shape
        } else {
            base.shape
        },
        background: if child.background.is_some() {
            child.background
        } else {
            base.background
        },
        module: if child.module.is_some() {
            child.module
        } else {
            base.module
        },
    }
}

/// Merging is the identity on every inheritable field the override leaves
/// absent: the merged profile carries the base's value there. Marker and
/// explicit output path are identity-defining and always come from the
/// override, present or not.
pub proof fn lemma_inherit_absent(base: ProfileView, child: ProfileView)
    ensures
        spec_inherit(base, child).marker == child.marker,
        spec_inherit(base, child).qr_path == child.qr_path,
        child.enable.is_none() ==> spec_inherit(base, child).enable == base.enable,
        child.url.is_none() ==> spec_inherit(base, child).url == base.url,
        child.fit.width.is_none() ==> spec_inherit(base, child).fit.width == base.fit.width,
        child.fit.height.is_none() ==> spec_inherit(base, child).fit.height == base.fit.height,
        child.margin.is_none() ==> spec_inherit(base, child).margin == base.margin,
        !spec_any_set(child.shape) ==> spec_inherit(base, child).shape == base.shape,
        child.background.is_none() ==> spec_inherit(base, child).background == base.background,
        child.module.is_none() ==> spec_inherit(base, child).module == base.module,
{
}

/// The named overrides merged against `base`, in order, keeping only the
/// valid results.
pub open spec fn spec_named_profiles(base: ProfileView, customs: Seq<NamedProfileView>) -> Seq<
    ProfileView,
>
    decreases customs.len(),
{
    if customs.len() == 0 {
        Seq::empty()
    } else {
        let rest = spec_named_profiles(base, customs.drop_last());
        let merged = spec_inherit(base, customs.last().profile);
        if spec_profile_valid(merged) {
            rest.push(merged)
        } else {
            rest
        }
    }
}

/// The resolved profile list: the default profile first (when included and
/// valid), then the merged named overrides that are valid.
pub open spec fn spec_profiles(cfg: QrConfigView) -> Seq<ProfileView> {
    let base = spec_default_profile(cfg);
    let head: Seq<ProfileView> = if cfg.include_default && spec_profile_valid(base) {
        seq![base]
    } else {
        Seq::empty()
    };
    head + spec_named_profiles(base, cfg.custom)
}

/// Warnings for invalid named overrides: one for a missing marker, one for
/// a merged profile with neither payload nor output path.
pub open spec fn spec_custom_warnings(cfg: QrConfigView) -> Seq<crate::diag::DiagView>
    decreases cfg.custom.len(),
{
    if cfg.custom.len() == 0 {
        Seq::empty()
    } else {
        let prior = spec_custom_warnings(
            QrConfigView { custom: cfg.custom.drop_last(), ..cfg },
        );
        let np = cfg.custom.last();
        let merged = spec_inherit(spec_default_profile(cfg), np.profile);
        if np.profile.marker.is_none() {
            prior.push(crate::diag::DiagView::MissingMarker { name: np.name })
        } else if !spec_profile_valid(merged) {
            prior.push(crate::diag::DiagView::MissingPayload { name: np.name })
        } else {
            prior
        }
    }
}

/// Is there a repeated marker, and which repeats first? Scans in order and
/// reports the marker of the first profile whose marker was already seen.
pub open spec fn spec_dup_at(ps: Seq<ProfileView>, j: int) -> bool {
    ps[j].marker.is_some() && exists|i: int| 0 <= i < j && ps[i].marker == ps[j].marker
}

pub open spec fn spec_first_dup_from(ps: Seq<ProfileView>, j: int) -> Option<Seq<u8>>
    decreases ps.len() - j,
{
    if j >= ps.len() {
        None
    } else if spec_dup_at(ps, j) {
        ps[j].marker
    } else {
        spec_first_dup_from(ps, j + 1)
    }
}

impl QrConfig {
    pub fn is_enabled(&self) -> (r: bool)
        ensures
            r == spec_enabled(self@.enable),
    {
        match self.enable {
            Some(b) => b,
            None => true,
        }
    }

    /// Lifts the top-level fields into the default profile.
    pub fn default_profile(&self) -> (r: Profile)
        ensures
            r@ == spec_default_profile(self@),
    {
        Profile {
            marker: Some(default_marker()),
            qr_path: dup_opt_bytes(&self.qr_path),
            enable: self.enable,
            url: dup_opt_bytes(&self.url),
            fit: self.fit,
            margin: self.margin,
            shape: self.shape,
            background: dup_opt_color(&self.background),
            module: dup_opt_color(&self.module),
        }
    }

    /// Merges `child` over `base` with field-level inheritance; marker and
    /// explicit output path never inherit.
    pub fn inherit(base: &Profile, child: &Profile) -> (r: Profile)
        ensures
            r@ == spec_inherit(base@, child@),
    {
        Profile {
            marker: dup_opt_bytes(&child.marker),
            qr_path: dup_opt_bytes(&child.qr_path),
            enable: if child.enable.is_some() {
                child.enable
            } else {
                base.enable
            },
            url: pick_opt_bytes(&child.url, &base.url),
            fit: FitConfig {
                width: if child.fit.width.is_some() {
                    child.fit.width
                } else {
                    base.fit.width
                },
                height: if child.fit.height.is_some() {
                    child.fit.height
                } else {
                    base.fit.height
                },
            },
            margin: if child.margin.is_some() {
                child.margin
            } else {
                base.margin
            },
            shape: if child.shape.any_set() {
                child.shape
            } else {
                base.shape
            },
            background: pick_opt_color(&child.background, &base.background),
            module: pick_opt_color(&child.module, &base.module),
        }
    }

    /// The warnings for invalid named overrides, without building profiles.
    pub fn warn_invalid_customs(&self) -> (out: Vec<crate::diag::Diag>)
        ensures
            crate::diag::view_diags(out@) == spec_custom_warnings(self@),
    {
        let base = self.default_profile();
        let mut out: Vec<crate::diag::Diag> = Vec::new();
        let mut i: usize = 0;
        while i < self.custom.len()
            invariant
                i <= self.custom@.len(),
                base@ == spec_default_profile(self@),
                crate::diag::view_diags(out@) == spec_custom_warnings(
                    QrConfigView { custom: self@.custom.take(i as int), ..self@ },
                ),
        decreases self.custom@.len() - i,
        {
            let np = &self.custom[i];
            let merged = QrConfig::inherit(&base, &np.profile);
            if np.profile.marker.is_none() {
                out.push(crate::diag::Diag::MissingMarker { name: crate::bytes::copy_bytes(&np.name) });
            } else if !merged.is_valid() {
                out.push(crate::diag::Diag::MissingPayload { name: crate::bytes::copy_bytes(&np.name) });
            }
            i = i + 1;
            proof {
                let cfgv = QrConfigView { custom: self@.custom.take(i as int), ..self@ };
                assert(cfgv.custom.drop_last() =~= self@.custom.take(i - 1));
                assert(spec_default_profile(cfgv) == spec_default_profile(self@));
                assert(crate::diag::view_diags(out@) =~= spec_custom_warnings(cfgv));
            }
        }
        proof {
            assert(self@.custom.take(self@.custom.len() as int) =~= self@.custom);
            assert(QrConfigView { custom: self@.custom.take(self@.custom.len() as int), ..self@ }
                == self@);
        }
        out
    }

    /// The resolved profile list: the default profile (when included and
    /// valid) followed by the valid merged named overrides, in order.
    pub fn profiles(&self) -> (out: Vec<Profile>)
        ensures
            out@.map_values(|p: Profile| p@) == spec_profiles(self@),
    {
        let base = self.default_profile();
        let mut out: Vec<Profile> = Vec::new();
        if self.include_default && base.is_valid() {
            out.push(base.duplicate());
        }
        let ghost head = if self@.include_default && spec_profile_valid(
            spec_default_profile(self@),
        ) {
            seq![spec_default_profile(self@)]
        } else {
            Seq::<ProfileView>::empty()
        };
        proof {
            assert(out@.map_values(|p: Profile| p@) =~= head + spec_named_profiles(
                spec_default_profile(self@),
                self@.custom.take(0),
            ));
        }
        let mut i: usize = 0;
        while i < self.custom.len()
            invariant
                i <= self.custom@.len(),
                base@ == spec_default_profile(self@),
                head == if self@.include_default && spec_profile_valid(
                    spec_default_profile(self@),
                ) {
                    seq![spec_default_profile(self@)]
                } else {
                    Seq::<ProfileView>::empty()
                },
                out@.map_values(|p: Profile| p@) == head + spec_named_profiles(
                    base@,
                    self@.custom.take(i as int),
                ),
            decreases self.custom@.len() - i,
        {
            let merged = QrConfig::inherit(&base, &self.custom[i].profile);
            let ghost before = out@.map_values(|p: Profile| p@);
            if merged.is_valid() {
                out.push(merged);
            }
            i = i + 1;
            proof {
                let cv = self@.custom;
                assert(cv.take(i as int).drop_last() =~= cv.take(i - 1));
                assert(cv.take(i as int).last() == cv[i - 1]);
                assert(cv[i - 1] == self.custom@[i - 1]@);
                assert(merged@ == spec_inherit(base@, cv[i - 1].profile));
                if spec_profile_valid(merged@) {
                    assert(out@ == out@.subrange(0, out@.len() - 1).push(merged));
                    assert(out@.map_values(|p: Profile| p@) =~= before.push(merged@));
                    assert(spec_named_profiles(base@, cv.take(i as int))
                        == spec_named_profiles(base@, cv.take(i - 1)).push(merged@));
                    assert(out@.map_values(|p: Profile| p@) =~= head + spec_named_profiles(
                        base@,
                        cv.take(i as int),
                    ));
                } else {
                    assert(out@.map_values(|p: Profile| p@) =~= head + spec_named_profiles(
                        base@,
                        cv.take(i as int),
                    ));
                }
            }
        }
        proof {
            assert(self@.custom.take(self@.custom.len() as int) =~= self@.custom);
        }
        out
    }

    /// The first marker configured twice among the given profiles, if any;
    /// a diagnostic aid, the set itself is left as it is.
    pub fn duplicate_marker_from(profiles: &Vec<Profile>) -> (r: Option<Vec<u8>>)
        ensures
            view_opt_bytes(r) == spec_first_dup_from(
                profiles@.map_values(|p: Profile| p@),
                0,
            ),
    {
        let ghost psv = profiles@.map_values(|p: Profile| p@);
        let mut j: usize = 0;
        while j < profiles.len()
            invariant
                psv == profiles@.map_values(|p: Profile| p@),
                j <= psv.len(),
                spec_first_dup_from(psv, 0) == spec_first_dup_from(psv, j as int),
                forall|k: int| 0 <= k < j ==> !spec_dup_at(psv, k),
            decreases psv.len() - j,
        {
            proof {
                assert(psv[j as int] == profiles@[j as int]@);
            }
            match &profiles[j].marker {
                Some(mj) => {
                    proof {
                        assert(psv[j as int].marker == Some(mj@));
                    }
                    let mut i: usize = 0;
                    while i < j
                        invariant
                            psv == profiles@.map_values(|p: Profile| p@),
                            i <= j < psv.len(),
                            spec_first_dup_from(psv, 0) == spec_first_dup_from(psv, j as int),
                            psv[j as int].marker == Some(mj@),
                            forall|k: int| 0 <= k < i ==> psv[k].marker != psv[j as int].marker,
                        decreases j - i,
                    {
                        proof {
                            assert(psv[i as int] == profiles@[i as int]@);
                        }
                        let hit = match &profiles[i].marker {
                            Some(mi) => bytes_eq(mi, mj),
                            None => false,
                        };
                        if hit {
                            proof {
                                assert(psv[i as int].marker == psv[j as int].marker);
                                assert(spec_dup_at(psv, j as int));
                                assert(spec_first_dup_from(psv, j as int) == Some(mj@));
                            }
                            return Some(copy_bytes(mj));
                        }
                        i = i + 1;
                    }
                    proof {
                        assert(!spec_dup_at(psv, j as int));
                    }
                },
                None => {
                    proof {
                        assert(!spec_dup_at(psv, j as int));
                    }
                },
            }
            j = j + 1;
        }
        proof {
            assert(spec_first_dup_from(psv, j as int) == None::<Seq<u8>>);
        }
        None
    }
}

} // verus!
