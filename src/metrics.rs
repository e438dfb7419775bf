use std::time::{Duration, Instant};

use vstd::prelude::*;

use crate::host::{InvocationError, Outcome};
use crate::ops::OpKind;

verus! {

#[verifier::external_type_specification]
#[verifier::external_body]
pub struct ExInstant(Instant);

/// Relies on Instant::now: reads the monotonic clock; nothing is assumed of
/// the reading.
pub assume_specification[ Instant::now ]() -> Instant;

/// Relies on Instant::elapsed: the time since the instant; nothing is assumed
/// of its value.
pub assume_specification[ Instant::elapsed ](i: &Instant) -> Duration;

/// Relies on Duration::as_nanos: the whole nanoseconds of a duration; nothing
/// is assumed of its value.
pub assume_specification[ Duration::as_nanos ](d: &Duration) -> u128;

/// A monotonic clock that reads nanoseconds since its creation.
pub struct Clock {
    origin: Instant,
}

impl Clock {
    /// Starts a clock at the current instant.
    pub fn start() -> (r: Clock) {
        Clock { origin: Instant::now() }
    }

    /// Nanoseconds since the clock started, saturated to `u64`.
    pub fn now(&self) -> (r: u64) {
        let n = self.origin.elapsed().as_nanos();
        if n > u64::MAX as u128 {
            u64::MAX
        } else {
            n as u64
        }
    }
}

/// One invocation as measured: the entry point, start and end timestamps in
/// nanoseconds, the resource units it consumed, and whether it succeeded.
#[derive(Clone, Copy, Debug, PartialEq, Eq, Structural)]
pub struct InvocationRecord {
    pub op: OpKind,
    pub start: u64,
    pub end: u64,
    pub units: u64,
    pub succeeded: bool,
}

impl InvocationRecord {
    /// The end timestamp is not before the start.
    pub open spec fn wf(&self) -> bool {
        self.start <= self.end
    }

    /// Elapsed time of a record; zero for one whose end precedes its start.
    pub open spec fn elapsed_spec(&self) -> nat {
        if self.start <= self.end {
            (self.end - self.start) as nat
        } else {
            0
        }
    }

    /// Elapsed nanoseconds between start and end.
    pub fn elapsed(&self) -> (r: u64)
        ensures
            r as nat == self.elapsed_spec(),
    {
        if self.start <= self.end {
            self.end - self.start
        } else {
            0
        }
    }
}

/// The record made of one call, from the clock readings around it and its
/// result. A failed call consumed no units; an end reading before the start is
/// taken as the start.
pub open spec fn record_of(
    op: OpKind,
    start: u64,
    end: u64,
    result: Result<Outcome, InvocationError>,
) -> InvocationRecord {
    InvocationRecord {
        op,
        start,
        end: if end < start {
            start
        } else {
            end
        },
        units: match result {
            Ok(o) => o.units,
            Err(_) => 0,
        },
        succeeded: result is Ok,
    }
}

/// Records one invocation per call, in call order.
pub struct MetricsCollector {
    records: Vec<InvocationRecord>,
}

impl View for MetricsCollector {
    type V = Seq<InvocationRecord>;

    closed spec fn view(&self) -> Seq<InvocationRecord> {
        self.records@
    }
}

impl MetricsCollector {
    /// A collector with no records.
    pub fn new() -> (r: MetricsCollector)
        ensures
            r@ == Seq::<InvocationRecord>::empty(),
    {
        MetricsCollector { records: Vec::new() }
    }

    /// Appends the record of one call.
    pub fn record(
        &mut self,
        op: OpKind,
        start: u64,
        end: u64,
        result: &Result<Outcome, InvocationError>,
    )
        ensures
            final(self)@ == old(self)@.push(record_of(op, start, end, *result)),
    {
        let units = match result {
            Ok(o) => o.units,
            Err(_) => 0,
        };
        let end = if end < start {
            start
        } else {
            end
        };
        self.records.push(InvocationRecord { op, start, end, units, succeeded: result.is_ok() });
    }

    /// The records so far, in call order.
    pub fn records(&self) -> (r: &Vec<InvocationRecord>)
        ensures
            r@ == self@,
    {
        &self.records
    }
}

} // verus!
