//! Diagnostic events. Components return these alongside their results
//! instead of writing to a process-wide log, so warning behaviour is part
//! of each contract.

use vstd::prelude::*;

verus! {

/// A non-fatal warning raised while resolving profiles or planning a build.
#[derive(Clone, Debug, PartialEq, Eq)]
pub enum Diag {
    /// A named override has no marker and was dropped.
    MissingMarker { name: Vec<u8> },
    /// A profile has neither a payload nor an explicit output path and was
    /// dropped.
    MissingPayload { name: Vec<u8> },
    /// A zero fit width was replaced by the default size.
    ZeroWidth,
    /// A zero fit height was replaced by the default size.
    ZeroHeight,
    /// An explicit payload is not an absolute http(s) URL and is encoded
    /// as-is.
    NonAbsoluteUrl { url: Vec<u8> },
    /// The same marker is configured by two profiles.
    DuplicateMarker { marker: Vec<u8> },
    /// Two distinct markers resolve to the same output path; the later one
    /// wins.
    PathCollision { prev: Vec<u8>, marker: Vec<u8>, path: Vec<u8> },
    /// A profile's marker occurs in no chapter; no work is done for it.
    UnusedMarker { marker: Vec<u8> },
    /// A profile's payload could not be resolved and the profile was
    /// skipped.
    UnresolvedUrl { marker: Vec<u8> },
    /// A bare override table with no named entries suppresses the default
    /// profile.
    SuppressedDefault,
    /// The derived default output file already exists and no explicit path
    /// was given; the profile was skipped rather than overwrite it.
    RefusedOverwrite { marker: Vec<u8>, path: Vec<u8> },
}

pub ghost enum DiagView {
    MissingMarker { name: Seq<u8> },
    MissingPayload { name: Seq<u8> },
    ZeroWidth,
    ZeroHeight,
    NonAbsoluteUrl { url: Seq<u8> },
    DuplicateMarker { marker: Seq<u8> },
    PathCollision { prev: Seq<u8>, marker: Seq<u8>, path: Seq<u8> },
    UnusedMarker { marker: Seq<u8> },
    UnresolvedUrl { marker: Seq<u8> },
    SuppressedDefault,
    RefusedOverwrite { marker: Seq<u8>, path: Seq<u8> },
}

impl View for Diag {
    type V = DiagView;

    open spec fn view(&self) -> DiagView {
        match self {
            Diag::MissingMarker { name } => DiagView::MissingMarker { name: name@ },
            Diag::MissingPayload { name } => DiagView::MissingPayload { name: name@ },
            Diag::ZeroWidth => DiagView::ZeroWidth,
            Diag::ZeroHeight => DiagView::ZeroHeight,
            Diag::NonAbsoluteUrl { url } => DiagView::NonAbsoluteUrl { url: url@ },
            Diag::DuplicateMarker { marker } => DiagView::DuplicateMarker { marker: marker@ },
            Diag::PathCollision { prev, marker, path } => DiagView::PathCollision {
                prev: prev@,
                marker: marker@,
                path: path@,
            },
            Diag::UnusedMarker { marker } => DiagView::UnusedMarker { marker: marker@ },
            Diag::UnresolvedUrl { marker } => DiagView::UnresolvedUrl { marker: marker@ },
            Diag::SuppressedDefault => DiagView::SuppressedDefault,
            Diag::RefusedOverwrite { marker, path } => DiagView::RefusedOverwrite {
                marker: marker@,
                path: path@,
            },
        }
    }
}

/// View of a diagnostics list.
pub open spec fn view_diags(d: Seq<Diag>) -> Seq<DiagView> {
    d.map_values(|x: Diag| x@)
}

} // verus!
