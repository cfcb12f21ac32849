use vstd::prelude::*;

verus! {

/// Descriptive metadata about a pipeline run. Times are milliseconds since the
/// Unix epoch; durations are milliseconds.
#[derive(Clone, Debug)]
pub struct PipelineMetadata {
    pub run_id: String,
    pub name: Option<String>,
    pub started_at: Option<u64>,
    pub finished_at: Option<u64>,
    pub duration: Option<u64>,
    pub tags: Option<Vec<String>>,
}

/// Descriptive metadata about one action execution. Times are milliseconds
/// since the Unix epoch; durations are milliseconds.
#[derive(Clone, Debug)]
pub struct ActionMetadata {
    pub id: String,
    pub action_type: String,
    pub started_at: Option<u64>,
    pub finished_at: Option<u64>,
    pub duration: Option<u64>,
    pub message: Option<String>,
}

impl ActionMetadata {
    /// Records the duration when both times are known and the end does not
    /// come before the start; otherwise leaves it as it was.
    pub fn compute_duration(&mut self)
        ensures
            final(self).id == old(self).id,
            final(self).action_type == old(self).action_type,
            final(self).started_at == old(self).started_at,
            final(self).finished_at == old(self).finished_at,
            final(self).message == old(self).message,
            final(self).duration == match (old(self).started_at, old(self).finished_at) {
                (Some(s), Some(e)) => if s <= e {
                    Some((e - s) as u64)
                } else {
                    old(self).duration
                },
                _ => old(self).duration,
            },
    {
        if let (Some(start), Some(end)) = (self.started_at, self.finished_at) {
            if start <= end {
                self.duration = Some(end - start);
            }
        }
    }
}

} // verus!
