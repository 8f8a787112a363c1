//! The controller of `GitHubUserSshKeys` resources.

use crate::cops::metrics::{no_gauges, no_histograms, Recorder, RecorderError};
use vstd::prelude::*;

verus! {

/// The controller of `GitHubUserSshKeys` resources, with the metrics that
/// it records.
pub struct GitHubUserSshKeysController {
    metrics: Recorder,
}

impl GitHubUserSshKeysController {
    /// The recorder of the controller.
    pub closed spec fn recorder(self) -> Recorder {
        self.metrics
    }

    /// A controller with a recorder of its own, which holds nothing yet.
    /// The recorder is always made, and so is the controller.
    pub fn new() -> (r: Result<GitHubUserSshKeysController, RecorderError>)
        ensures
            r matches Ok(controller) && controller.recorder().wf()
                && controller.recorder().conditions() == no_gauges()
                && controller.recorder().suspends() == no_gauges()
                && controller.recorder().durations() == no_histograms(),
    {
        let metrics = match Recorder::new() {
            Ok(metrics) => metrics,
            Err(e) => {
                return Err(e);
            },
        };

        Ok(GitHubUserSshKeysController { metrics })
    }

    /// The recorder of the controller.
    pub fn metrics(&self) -> (r: &Recorder)
        ensures
            *r == self.recorder(),
    {
        &self.metrics
    }

    /// Hands out the recorder of the controller, to be shared.
    pub fn into_metrics(self) -> (r: Recorder)
        ensures
            r == self.recorder(),
    {
        self.metrics
    }

    /// The recorder of the controller, to record with.
    pub fn metrics_mut(&mut self) -> (r: &mut Recorder)
        ensures
            *r == old(self).recorder(),
            final(self).recorder() == *final(r),
    {
        &mut self.metrics
    }
}

} // verus!
