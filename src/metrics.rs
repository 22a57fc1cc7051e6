use vstd::prelude::*;

verus! {

/// Name of the time spent processing one view transfer message.
pub const VIEW_TRANSFER_PROCESS_MESSAGE_TIME: &'static str = "VT_MSG_PROCESS_TIME";

/// Identifier of that metric; this protocol takes the nine hundreds.
pub const VIEW_TRANSFER_PROCESS_MESSAGE_TIME_ID: usize = 900;

/// What a metric measures.
#[derive(Clone, Copy, Debug, PartialEq, Eq, Structural)]
pub enum MetricKind {
    Duration,
    Counter,
}

/// How detailed a metric is.
#[derive(Clone, Copy, Debug, PartialEq, Eq, Structural)]
pub enum MetricLevel {
    Info,
    Debug,
    Trace,
}

/// A metric this protocol publishes.
#[derive(Clone, Copy, Debug)]
pub struct MetricRegistry {
    pub id: usize,
    pub name: &'static str,
    pub kind: MetricKind,
    pub level: MetricLevel,
}

/// The metrics of the view transfer protocol.
pub fn metrics() -> (r: Vec<MetricRegistry>)
    ensures
        r@.len() == 1,
        r@[0].id == VIEW_TRANSFER_PROCESS_MESSAGE_TIME_ID,
        r@[0].name == VIEW_TRANSFER_PROCESS_MESSAGE_TIME,
        r@[0].kind == MetricKind::Duration,
        r@[0].level == MetricLevel::Info,
{
    let mut r = Vec::new();
    r.push(
        MetricRegistry {
            id: VIEW_TRANSFER_PROCESS_MESSAGE_TIME_ID,
            name: VIEW_TRANSFER_PROCESS_MESSAGE_TIME,
            kind: MetricKind::Duration,
            level: MetricLevel::Info,
        },
    );
    r
}

} // verus!
