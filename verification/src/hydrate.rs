//! Start-up: from what storage gave to the registry that serves.

use crate::index::{absorb, record_map};
use crate::model::{camera_models, Camera, CameraModel};
use crate::registry::Registry;
use vstd::prelude::*;

verus! {

/// What reading the stored registry came to.
#[derive(Debug)]
pub enum LoadOutcome {
    /// The records that the file holds.
    Loaded(Vec<Camera>),
    /// There is no file: nothing was stored yet.
    Missing,
    /// There is a file, and its content is not a registry.
    Malformed,
}

/// What start-up has to report when it goes on without stored records.
#[derive(Debug, Clone, Copy, PartialEq, Eq, Structural)]
pub enum LoadNotice {
    /// No prior state: a first run. For information.
    NoPriorState,
    /// The stored state is corrupt and was set aside. A warning.
    CorruptState,
}

/// The records with which the registry starts after `outcome`.
pub open spec fn hydrated_records(outcome: LoadOutcome) -> Seq<CameraModel> {
    match outcome {
        LoadOutcome::Loaded(loaded) => absorb(camera_models(loaded@)),
        LoadOutcome::Missing => Seq::empty(),
        LoadOutcome::Malformed => Seq::empty(),
    }
}

/// What start-up reports after `outcome`.
pub open spec fn hydration_notice(outcome: LoadOutcome) -> Option<LoadNotice> {
    match outcome {
        LoadOutcome::Loaded(_) => None,
        LoadOutcome::Missing => Some(LoadNotice::NoPriorState),
        LoadOutcome::Malformed => Some(LoadNotice::CorruptState),
    }
}

/// Makes the registry that serves from what storage gave.
///
/// A load that failed is no reason to stop: the registry starts empty, and
/// the notice says why. Records that were read are stored in turn, so that of
/// two with one id the later one stays.
pub fn hydrate(base_url: String, outcome: LoadOutcome) -> (r: (Registry, Option<LoadNotice>))
    ensures
        r.0.base() == base_url@,
        r.0.records() == hydrated_records(outcome),
        r.1 == hydration_notice(outcome),
        outcome matches LoadOutcome::Loaded(loaded) ==> r.0@ == record_map(
            camera_models(loaded@),
        ),
{
    match outcome {
        LoadOutcome::Loaded(loaded) => (Registry::from_records(base_url, loaded), None),
        LoadOutcome::Missing => (Registry::new(base_url), Some(LoadNotice::NoPriorState)),
        LoadOutcome::Malformed => (Registry::new(base_url), Some(LoadNotice::CorruptState)),
    }
}

} // verus!
