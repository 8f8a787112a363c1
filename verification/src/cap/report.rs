//! An error report as the reconcile engine takes it.

use vstd::prelude::*;

verus! {

#[verifier::external_type_specification]
#[verifier::external_body]
pub struct ExReport(eyre::Report);

/// An `eyre::Report` handed to the reconcile engine as its error.
pub struct ReportWrapper(eyre::Report);

impl ReportWrapper {
    /// The report that is wrapped.
    pub closed spec fn report(self) -> eyre::Report {
        self.0
    }

    /// Wraps a report.
    pub fn new(report: eyre::Report) -> (r: ReportWrapper)
        ensures
            r.report() == report,
    {
        ReportWrapper(report)
    }

    /// The report of the wrapper as it was wrapped.
    pub fn as_inner(&self) -> (r: &eyre::Report)
        ensures
            *r == self.report(),
    {
        &self.0
    }

    /// Unwraps the report.
    pub fn into_inner(self) -> (r: eyre::Report)
        ensures
            r == self.report(),
    {
        self.0
    }
}

} // verus!
