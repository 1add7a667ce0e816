//! The scheduled-report runner: when the next run is due, the window a run
//! covers, and the run itself as a machine the caller drives (it loads and
//! computes each metric and reports back).  Times are Unix seconds.
use vstd::prelude::*;

use crate::text::str_eq;

verus! {

/// Seconds in a day.
pub const DAY_SECS: i64 = 86_400;

/// Days until the next run of a schedule: 7 weekly, 30 monthly, otherwise 1.
pub open spec fn schedule_days(schedule: Seq<char>) -> int {
    if schedule == "weekly"@ {
        7
    } else if schedule == "monthly"@ {
        30
    } else {
        1
    }
}

/// The next run after `from`.
pub fn next_run_at(schedule: &str, from: i64) -> (r: i64)
    requires
        from + 30 * DAY_SECS <= i64::MAX,
    ensures
        r == from + schedule_days(schedule@) * DAY_SECS,
{
    if str_eq(schedule, "weekly") {
        from + 7 * DAY_SECS
    } else if str_eq(schedule, "monthly") {
        from + 30 * DAY_SECS
    } else {
        from + DAY_SECS
    }
}

/// The window a run at `now` covers: the `date_range_days` days up to now.
pub fn report_window(now: i64, date_range_days: i32) -> (r: (i64, i64))
    requires
        i64::MIN <= now - date_range_days * DAY_SECS,
        now - date_range_days * DAY_SECS <= i64::MAX,
    ensures
        r.0 == now - date_range_days * DAY_SECS,
        r.1 == now,
{
    (now - date_range_days as i64 * DAY_SECS, now)
}

/// What the runner asks the caller to do next.
#[derive(Debug, Clone, Copy, PartialEq, Eq, Structural)]
pub enum RunAction {
    /// Load the definition of this metric.
    LoadDefinition(u128),
    /// Compute this metric over the window and hand the result back.
    Compute(u128),
    /// Store the run as completed with the results gathered.
    StoreCompleted,
    /// Store the run as failed.
    StoreFailed,
}

/// What loading a metric definition gave.
#[derive(Debug, Clone, Copy, PartialEq, Eq, Structural)]
pub enum DefinitionOutcome {
    Found,
    /// Missing or inactive: the metric is skipped.
    Missing,
    /// Loading failed: the run fails.
    LoadError,
}

/// A run in progress over `metric_ids`: the position of the metric at hand,
/// and whether a step failed.
pub struct ReportRun {
    pub metric_ids: Vec<u128>,
    pub position: usize,
    pub failed: bool,
}

/// The action due in a run state.
pub open spec fn due_action(metric_ids: Seq<u128>, position: int, failed: bool) -> RunAction {
    if failed {
        RunAction::StoreFailed
    } else if position < metric_ids.len() {
        RunAction::LoadDefinition(metric_ids[position])
    } else {
        RunAction::StoreCompleted
    }
}

impl ReportRun {
    /// A run over `metric_ids`, at the first metric.
    pub fn new(metric_ids: Vec<u128>) -> (r: Self)
        ensures
            r.metric_ids@ == metric_ids@,
            r.position == 0,
            !r.failed,
    {
        ReportRun { metric_ids, position: 0, failed: false }
    }

    /// The action due now.
    pub fn next_action(&self) -> (r: RunAction)
        ensures
            r == due_action(self.metric_ids@, self.position as int, self.failed),
    {
        if self.failed {
            RunAction::StoreFailed
        } else if self.position < self.metric_ids.len() {
            RunAction::LoadDefinition(self.metric_ids[self.position])
        } else {
            RunAction::StoreCompleted
        }
    }

    /// Take the outcome of loading the current metric's definition: compute
    /// it when found, skip it when missing, fail on a load error.
    pub fn on_definition(&mut self, outcome: DefinitionOutcome) -> (r: RunAction)
        requires
            !old(self).failed,
            old(self).position < old(self).metric_ids@.len(),
        ensures
            final(self).metric_ids@ == old(self).metric_ids@,
            match outcome {
                DefinitionOutcome::Found => r == RunAction::Compute(old(self).metric_ids@[old(self).position as int])
                    && final(self).position == old(self).position && !final(self).failed,
                DefinitionOutcome::Missing => final(self).position == old(self).position + 1 && !final(self).failed
                    && r == due_action(final(self).metric_ids@, final(self).position as int, false),
                DefinitionOutcome::LoadError => final(self).failed && final(self).position == old(self).position
                    && r == RunAction::StoreFailed,
            },
    {
        match outcome {
            DefinitionOutcome::Found => RunAction::Compute(self.metric_ids[self.position]),
            DefinitionOutcome::Missing => {
                // The length of the list bounds the next position, so the step cannot overflow.
                let count = self.metric_ids.len();
                assert(self.position + 1 <= count);
                self.position = self.position + 1;
                self.next_action()
            },
            DefinitionOutcome::LoadError => {
                self.failed = true;
                RunAction::StoreFailed
            },
        }
    }

    /// Take the outcome of computing the current metric: move on when it
    /// succeeded, fail otherwise.
    pub fn on_computed(&mut self, succeeded: bool) -> (r: RunAction)
        requires
            !old(self).failed,
            old(self).position < old(self).metric_ids@.len(),
        ensures
            final(self).metric_ids@ == old(self).metric_ids@,
            succeeded ==> final(self).position == old(self).position + 1 && !final(self).failed
                && r == due_action(final(self).metric_ids@, final(self).position as int, false),
            !succeeded ==> final(self).failed && final(self).position == old(self).position && r == RunAction::StoreFailed,
    {
        if succeeded {
            // The length of the list bounds the next position, so the step cannot overflow.
            let count = self.metric_ids.len();
            assert(self.position + 1 <= count);
            self.position = self.position + 1;
            self.next_action()
        } else {
            self.failed = true;
            RunAction::StoreFailed
        }
    }
}

/// A run ends completed only when every metric was handled, and fails as soon
/// as a step fails.
pub proof fn law_run_completes_only_at_end(metric_ids: Seq<u128>, position: int, failed: bool)
    requires
        0 <= position <= metric_ids.len(),
    ensures
        due_action(metric_ids, position, failed) == RunAction::StoreCompleted ==> !failed && position == metric_ids.len(),
        failed ==> due_action(metric_ids, position, failed) == RunAction::StoreFailed,
{
}

} // verus!
