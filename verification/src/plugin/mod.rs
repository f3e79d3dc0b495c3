//! What plugins share with the host.

use vstd::prelude::*;

pub mod ui;

verus! {

/// The state that a plugin reports of itself.
#[derive(Debug, Clone, Copy, PartialEq, Eq, Structural)]
pub enum PluginReport {
    Uninit,
    Operational,
    InvalidState,
    Fatal,
    Dead,
}

} // verus!
