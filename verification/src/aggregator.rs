//! The event aggregator: the single forwarding point between the
//! producers (output pumps, liveness polls) and the observers.
//!
//! Log records queue up and are flushed as one ordered batch when the
//! queue reaches the batch size or when the surrounding application's
//! flush timer fires; a flush of one record is delivered alone.
//! Status and URL events matter for their timeliness and bypass the
//! queue entirely.  No record queued here is ever dropped or
//! reordered: every emission, concatenated in order, reproduces the
//! queued records in arrival order.

use vstd::prelude::*;

use crate::events::{LogEvent, ManagerEvent, StatusEvent};

verus! {

/// A flush is delivered when this many records are pending, without
/// waiting for the timer.
pub const LOG_BATCH_SIZE: usize = 200;

/// The flush timer's interval, in milliseconds, for the surrounding
/// application's loop.
pub const LOG_FLUSH_INTERVAL_MS: u64 = 100;

/// One flush: a single record, or an ordered batch of two or more.
#[derive(Debug, Clone)]
pub enum LogEmission {
    Single(LogEvent),
    Batch(Vec<LogEvent>),
}

/// The records a flush delivers, in order.
pub open spec fn emission_records(e: LogEmission) -> Seq<LogEvent> {
    match e {
        LogEmission::Single(l) => seq![l],
        LogEmission::Batch(v) => v@,
    }
}

/// The records an optional flush delivers, in order.
pub open spec fn emitted_records(e: Option<LogEmission>) -> Seq<LogEvent> {
    match e {
        None => seq![],
        Some(em) => emission_records(em),
    }
}

/// What queueing one record does, as `on_log` performs it: the queue
/// after the call, and the records the call emits.
pub open spec fn log_step(pending: Seq<LogEvent>, limit: int, e: LogEvent) -> (
    Seq<LogEvent>,
    Seq<LogEvent>,
) {
    if pending.len() + 1 >= limit {
        (seq![], pending.push(e))
    } else {
        (pending.push(e), seq![])
    }
}

/// What a whole burst of records does: the queue at the end, and
/// everything emitted along the way, in emission order.
pub open spec fn feed_logs(pending: Seq<LogEvent>, limit: int, inputs: Seq<LogEvent>) -> (
    Seq<LogEvent>,
    Seq<LogEvent>,
)
    decreases inputs.len(),
{
    if inputs.len() == 0 {
        (pending, seq![])
    } else {
        let step = log_step(pending, limit, inputs[0]);
        let rest = feed_logs(step.0, limit, inputs.drop_first());
        (rest.0, step.1 + rest.1)
    }
}

/// Feeding the queue any burst of records loses and reorders
/// nothing: everything emitted, concatenated in emission order,
/// followed by what is still pending, is exactly what was pending
/// before followed by the burst in arrival order.  Each `on_log`
/// call performs one `log_step`, so this holds across any sequence
/// of calls.
pub proof fn lemma_feed_logs_conserves(pending: Seq<LogEvent>, limit: int, inputs: Seq<LogEvent>)
    ensures
        feed_logs(pending, limit, inputs).1 + feed_logs(pending, limit, inputs).0 == pending
            + inputs,
    decreases inputs.len(),
{
    if inputs.len() == 0 {
        assert(feed_logs(pending, limit, inputs).1 + feed_logs(pending, limit, inputs).0 =~= pending
            + inputs);
    } else {
        let step = log_step(pending, limit, inputs[0]);
        let rest = feed_logs(step.0, limit, inputs.drop_first());
        lemma_feed_logs_conserves(step.0, limit, inputs.drop_first());
        assert(step.1 + step.0 =~= pending.push(inputs[0]));
        assert((step.1 + rest.1) + rest.0 =~= step.1 + (rest.1 + rest.0));
        assert(step.1 + (step.0 + inputs.drop_first()) =~= pending + inputs);
    }
}

/// The pending-log queue and its flush threshold.
pub struct EventAggregator {
    pending: Vec<LogEvent>,
    batch_size: usize,
}

/// What the aggregator asks its caller to deliver in response to one
/// incoming event: nothing yet, a log flush, or an immediately
/// forwarded status or URL event.
#[derive(Debug, Clone)]
pub enum AggregatorOutput {
    Nothing,
    Logs(LogEmission),
    Status(StatusEvent),
    Url { service_id: String, url: String },
}

impl EventAggregator {
    /// The queued log records, in arrival order.
    pub closed spec fn pending_logs(self) -> Seq<LogEvent> {
        self.pending@
    }

    /// The batch size: a flush is forced as soon as this many records
    /// are pending.
    pub closed spec fn batch_limit(self) -> int {
        self.batch_size as int
    }

    /// Well-formedness: the batch size is at least one.
    pub open spec fn wf(self) -> bool {
        self.batch_limit() >= 1
    }

    /// An empty aggregator with the standard batch size.
    pub fn new() -> (r: Self)
        ensures
            r.wf(),
            r.pending_logs() == Seq::<LogEvent>::empty(),
            r.batch_limit() == LOG_BATCH_SIZE as int,
    {
        EventAggregator { pending: Vec::new(), batch_size: LOG_BATCH_SIZE }
    }

    /// An empty aggregator with a chosen batch size.
    pub fn with_batch_size(batch_size: usize) -> (r: Self)
        requires
            batch_size >= 1,
        ensures
            r.wf(),
            r.pending_logs() == Seq::<LogEvent>::empty(),
            r.batch_limit() == batch_size as int,
    {
        EventAggregator { pending: Vec::new(), batch_size }
    }

    /// Flushes the queue: every pending record leaves, in arrival
    /// order, as nothing, a single emission, or one batch, by count.
    /// The surrounding application calls this when its flush timer
    /// fires, and once at shutdown.
    pub fn flush(&mut self) -> (r: Option<LogEmission>)
        ensures
            final(self).pending_logs() == Seq::<LogEvent>::empty(),
            final(self).batch_limit() == old(self).batch_limit(),
            emitted_records(r) == old(self).pending_logs(),
            (r is None) <==> old(self).pending_logs().len() == 0,
            (r matches Some(LogEmission::Single(l)) ==> l == old(self).pending_logs()[0]),
            (r matches Some(LogEmission::Single(_))) <==> old(self).pending_logs().len() == 1,
            (r matches Some(LogEmission::Batch(_))) <==> old(self).pending_logs().len() >= 2,
    {
        let n = self.pending.len();
        if n == 0 {
            proof {
                assert(emitted_records(None) =~= old(self).pending_logs());
            }
            None
        } else if n == 1 {
            let l = match self.pending.pop() {
                Some(l) => l,
                None => vstd::pervasive::unreached(),
            };
            proof {
                assert(emission_records(LogEmission::Single(l)) =~= old(self).pending_logs());
            }
            Some(LogEmission::Single(l))
        } else {
            let batch = self.pending.split_off(0);
            proof {
                assert(batch@ =~= old(self).pending_logs());
                assert(self.pending@ =~= Seq::<LogEvent>::empty());
            }
            Some(LogEmission::Batch(batch))
        }
    }

    /// Queues one log record; when that fills the queue to the batch
    /// size, the whole queue leaves at once as a flush.  Nothing is
    /// dropped and nothing reordered: what leaves plus what stays is
    /// exactly what was queued plus the new record.
    pub fn on_log(&mut self, e: LogEvent) -> (r: Option<LogEmission>)
        requires
            old(self).wf(),
        ensures
            final(self).wf(),
            final(self).batch_limit() == old(self).batch_limit(),
            emitted_records(r) + final(self).pending_logs() == old(self).pending_logs().push(e),
            (final(self).pending_logs(), emitted_records(r)) == log_step(
                old(self).pending_logs(),
                old(self).batch_limit(),
                e,
            ),
            (r is Some) <==> old(self).pending_logs().len() + 1 >= old(self).batch_limit(),
            r is Some ==> final(self).pending_logs().len() == 0 && emitted_records(r) == old(
                self,
            ).pending_logs().push(e),
            r is None ==> final(self).pending_logs() == old(self).pending_logs().push(e),
    {
        self.pending.push(e);
        if self.pending.len() >= self.batch_size {
            let r = self.flush();
            proof {
                assert(emitted_records(r) + self.pending_logs() =~= old(self).pending_logs().push(
                    e,
                ));
            }
            r
        } else {
            proof {
                assert(emitted_records(None) + self.pending@ =~= old(self).pending_logs().push(e));
            }
            None
        }
    }

    /// Routes one supervisor event: log records go through the queue,
    /// status snapshots and URL announcements are forwarded unchanged
    /// at once.
    pub fn on_event(&mut self, ev: ManagerEvent) -> (r: AggregatorOutput)
        requires
            old(self).wf(),
        ensures
            final(self).wf(),
            final(self).batch_limit() == old(self).batch_limit(),
            match ev {
                ManagerEvent::Log(e) => {
                    &&& match r {
                        AggregatorOutput::Nothing => final(self).pending_logs() == old(
                            self,
                        ).pending_logs().push(e),
                        AggregatorOutput::Logs(em) => emission_records(em) == old(
                            self,
                        ).pending_logs().push(e) && final(self).pending_logs().len() == 0,
                        _ => false,
                    }
                    &&& ((r matches AggregatorOutput::Logs(_)) <==> old(
                        self,
                    ).pending_logs().len() + 1 >= old(self).batch_limit())
                },
                ManagerEvent::Status(s) => r == AggregatorOutput::Status(s) && *final(self) == *old(
                    self,
                ),
                ManagerEvent::ServiceUrl { service_id, url } => r == (AggregatorOutput::Url {
                    service_id,
                    url,
                }) && *final(self) == *old(self),
            },
    {
        match ev {
            ManagerEvent::Log(e) => {
                match self.on_log(e) {
                    Some(em) => AggregatorOutput::Logs(em),
                    None => AggregatorOutput::Nothing,
                }
            },
            ManagerEvent::Status(s) => AggregatorOutput::Status(s),
            ManagerEvent::ServiceUrl { service_id, url } => AggregatorOutput::Url {
                service_id,
                url,
            },
        }
    }
}

} // verus!
