//! The acquisition step: the decisions of the perpetual read loop as a
//! pure state transition.  The loop around it alternates between
//! reading (blocked on the serial line with a bounded timeout) and
//! processing (decode and fan-out); every event leads back to reading.
//! On a decoded line the step stamps the ingestion time, records the
//! commanded valve intent, appends to the bounded history and hands the
//! caller one copy for the consumer and one log record for the logger;
//! on a timeout, an I/O error or a malformed line it changes nothing.

use vstd::prelude::*;

use crate::decode::decode_error_of;
use crate::decode::decode_line;
use crate::decode::decoded_from;
use crate::decode::line_wf;
use crate::decode::DecodeError;
use crate::log_record::log_record;
use crate::log_record::render_record;
use crate::relay::ValveCommand;
use crate::ring::push_all;
use crate::ring::push_evict;
use crate::ring::RingBuffer;
use crate::sample::sample_matches;
use crate::sample::sample_wf;
use crate::sample::TelemetrySample;

verus! {

/// What one bounded serial read yielded.
pub enum ReadEvent {
    /// The read timed out with no data: not an error.
    TimedOut,
    /// A non-timeout I/O error; the loop reports it and continues.
    Failed,
    /// One complete line, without its terminator.
    Received(Vec<u8>),
}

/// What the caller owes after one acquisition step.
pub enum StepOutcome {
    /// Nothing to do; read again.
    Idle,
    /// Report the I/O error; then read again.
    IoTrouble,
    /// A valid line: forward `sample` to the consumer (a send that may
    /// fail is ignored) and append `record` to the durable log.
    Accepted { sample: TelemetrySample, record: Vec<u8> },
    /// A malformed line: report the decode error and drop the line.
    Rejected(DecodeError),
}

/// Every successfully decoded sample has exactly one log record, and
/// record order matches decode order.
pub proof fn lemma_one_record_per_sample(p: Pipeline)
    requires
        p.wf(),
    ensures
        p.logged_records().len() == p.decoded_history().len(),
        forall|i: int|
            0 <= i < p.decoded_history().len() ==> p.logged_records()[i] == log_record(
                #[trigger] p.decoded_history()[i],
            ),
{
}

/// The bounded history always holds the newest decoded samples that
/// fit its capacity, in decode order: everything older has been
/// evicted, nothing has been reordered.
pub proof fn lemma_recent_is_newest_suffix(p: Pipeline)
    requires
        p.wf(),
    ensures
        p.decoded_history().len() <= p.cap() ==> p.recent() == p.decoded_history(),
        p.decoded_history().len() > p.cap() ==> p.recent() == p.decoded_history().skip(
            p.decoded_history().len() - p.cap(),
        ),
        p.recent().len() == if p.decoded_history().len() <= p.cap() {
            p.decoded_history().len()
        } else {
            p.cap()
        },
{
    crate::ring::lemma_push_all_suffix(Seq::<TelemetrySample>::empty(), p.cap(), p.decoded_history());
    if p.decoded_history().len() <= p.cap() {
        assert((Seq::<TelemetrySample>::empty() + p.decoded_history()).skip(0)
            =~= p.decoded_history());
    } else {
        assert((Seq::<TelemetrySample>::empty() + p.decoded_history()).skip(
            p.decoded_history().len() - p.cap(),
        ) =~= p.decoded_history().skip(p.decoded_history().len() - p.cap()));
    }
}

/// The acquisition pipeline: the bounded sample history plus the full
/// ghost record of everything decoded and logged, in order.
pub struct Pipeline {
    ring: RingBuffer,
    history: Ghost<Seq<TelemetrySample>>,
    records: Ghost<Seq<Seq<u8>>>,
}

impl Pipeline {
    /// Every sample ever decoded, in decode order.
    pub closed spec fn decoded_history(self) -> Seq<TelemetrySample> {
        self.history@
    }

    /// Every log record ever produced, in production order.
    pub closed spec fn logged_records(self) -> Seq<Seq<u8>> {
        self.records@
    }

    /// The bounded history's current contents, oldest first.
    pub closed spec fn recent(self) -> Seq<TelemetrySample> {
        self.ring.contents()
    }

    /// The bounded history's capacity.
    pub closed spec fn cap(self) -> nat {
        self.ring.cap()
    }

    /// Invariant: the bounded history holds exactly the decoded samples
    /// pushed in order under its capacity bound, every decoded sample is
    /// well formed, and the records are exactly one log record per
    /// decoded sample, in decode order.
    pub open spec fn wf(self) -> bool {
        &&& self.recent().len() <= self.cap()
        &&& self.recent() == push_all(
            Seq::<TelemetrySample>::empty(),
            self.cap(),
            self.decoded_history(),
        )
        &&& forall|i: int|
            0 <= i < self.decoded_history().len() ==> sample_wf(
                #[trigger] self.decoded_history()[i],
            )
        &&& self.logged_records() == self.decoded_history().map_values(
            |s: TelemetrySample| log_record(s),
        )
    }

    /// A fresh pipeline: nothing decoded, nothing logged, an empty
    /// bounded history with the given capacity.
    pub fn new(capacity: usize) -> (r: Self)
        ensures
            r.wf(),
            r.cap() == capacity,
            r.decoded_history() == Seq::<TelemetrySample>::empty(),
            r.logged_records() == Seq::<Seq<u8>>::empty(),
    {
        let r = Pipeline {
            ring: RingBuffer::new(capacity),
            history: Ghost(Seq::empty()),
            records: Ghost(Seq::empty()),
        };
        proof {
            assert(r.logged_records() =~= r.decoded_history().map_values(
                |s: TelemetrySample| log_record(s),
            ));
        }
        r
    }

    /// Borrow of the bounded history, for a consumer that only
    /// observes.
    pub fn recent_samples(&self) -> (r: &Vec<TelemetrySample>)
        ensures
            r@ == self.recent(),
    {
        self.ring.snapshot()
    }

    /// The bounded history's capacity.
    pub fn capacity(&self) -> (c: usize)
        ensures
            c == self.cap(),
    {
        self.ring.capacity()
    }

    /// One step of the acquisition loop, given the read event, the
    /// wall clock `now` and the relay's current valve command.  A
    /// timeout or I/O error changes nothing; a malformed line earns
    /// exactly its decode error and changes nothing; a well-formed line
    /// is decoded, stamped with `now` and the commanded valve intent,
    /// appended to the bounded history, and answered with one consumer
    /// copy and one log record.
    pub fn acquisition_step(&mut self, event: ReadEvent, now: u64, cmd: ValveCommand) -> (out:
        StepOutcome)
        requires
            old(self).wf(),
        ensures
            final(self).wf(),
            final(self).cap() == old(self).cap(),
            match event {
                ReadEvent::TimedOut => *final(self) == *old(self) && out is Idle,
                ReadEvent::Failed => *final(self) == *old(self) && out is IoTrouble,
                ReadEvent::Received(line) => {
                    if line_wf(line@) {
                        &&& final(self).decoded_history().len() == old(
                            self,
                        ).decoded_history().len() + 1
                        &&& final(self).decoded_history().drop_last() == old(
                            self,
                        ).decoded_history()
                        &&& {
                            let stored = final(self).decoded_history().last();
                            &&& decoded_from(stored, line@)
                            &&& stored.timestamp == now
                            &&& stored.fuel_valve_open == cmd.fuel_open
                            &&& stored.oxi_valve_open == cmd.oxi_open
                            &&& final(self).logged_records() == old(self).logged_records().push(
                                log_record(stored),
                            )
                            &&& (out matches StepOutcome::Accepted { sample, record }
                                && sample_matches(sample, stored) && record@ == log_record(stored))
                        }
                    } else {
                        &&& *final(self) == *old(self)
                        &&& out == StepOutcome::Rejected(decode_error_of(line@))
                    }
                },
            },
    {
        match event {
            ReadEvent::TimedOut => StepOutcome::Idle,
            ReadEvent::Failed => StepOutcome::IoTrouble,
            ReadEvent::Received(line) => {
                match decode_line(line.as_slice()) {
                    Err(e) => StepOutcome::Rejected(e),
                    Ok(s) => {
                        let mut s = s;
                        s.timestamp = now;
                        s.fuel_valve_open = cmd.fuel_open;
                        s.oxi_valve_open = cmd.oxi_open;
                        let record = render_record(&s);
                        let sample = s.duplicate();
                        let ghost stored = s;
                        let ghost old_history = self.history@;
                        let ghost old_records = self.records@;
                        proof {
                            self.history@ = old_history.push(stored);
                            self.records@ = old_records.push(log_record(stored));
                        }
                        self.ring.push(s);
                        proof {
                            assert(self.history@.drop_last() =~= old_history);
                            assert(self.history@.last() == stored);
                            assert(self.ring.contents() == push_evict(
                                push_all(
                                    Seq::<TelemetrySample>::empty(),
                                    self.ring.cap(),
                                    old_history,
                                ),
                                self.ring.cap(),
                                stored,
                            ));
                            assert(self.records@ =~= self.history@.map_values(
                                |t: TelemetrySample| log_record(t),
                            ));
                        }
                        StepOutcome::Accepted { sample, record }
                    },
                }
            },
        }
    }
}

} // verus!
