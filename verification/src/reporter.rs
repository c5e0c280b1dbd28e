//! The interface between the probe engine and the consumers of its results.

use crate::probe_result::ProbeResult;
use vstd::prelude::*;

verus! {

/// Why a consumer could not take a result list.
#[derive(Debug, Clone, PartialEq, Eq)]
pub struct ReportError {
    pub message: String,
}

/// A consumer of probe results: a dashboard, a metrics store, a notifier.
pub trait ProbeReporter {
    /// Takes the ranked results of one cycle.
    fn report(&self, results: &Vec<ProbeResult>) -> Result<(), ReportError>;

    /// Whether the engine has to keep scheduling cycles for this consumer.
    /// A consumer that does not say otherwise is continuous; one that wants a
    /// single snapshot answers `false`.
    fn is_continuous(&self) -> (r: bool)
        default_ensures
            r == true,
    {
        true
    }

    /// A name for diagnostics.
    fn name(&self) -> String;
}

} // verus!
