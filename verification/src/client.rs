//! The probing client's decision logic, one exchange at a time.
//!
//! The client is a single logical sequence: send the request frame, wait for
//! the reply, time the round trip, verify the reply, repeat. The transport
//! performs the sending, receiving and timing; this module decides, from the
//! run's state and the outcome of one exchange, what happens next. A single
//! transport failure or protocol violation aborts the whole remaining run;
//! there are no retries.

use vstd::prelude::*;
use crate::error::ProbeError;
use crate::protocol::{echo_seq, echo_bytes, bytes_eq};

verus! {

/// The observable outcome of one pending exchange, handed in by the transport.
pub enum ClientEvent {
    /// A reply arrived: its bytes, and the measured round-trip time
    /// in whole microseconds.
    Reply { bytes: Vec<u8>, elapsed_micros: u64 },
    /// The send or the receive failed.
    TransportFailed,
}

/// What the transport must do next.
#[derive(Clone, Copy, PartialEq, Eq, Structural, Debug)]
pub enum ClientAction {
    /// Send the request frame and wait for its reply.
    SendProbe,
    /// Every requested iteration completed; the run's samples are final.
    Finish,
    /// Stop immediately: the run failed for the given reason.
    Abort(ProbeError),
}

/// The state of one measurement run: how many exchanges are still owed and
/// the round-trip samples completed so far, in order of completion.
pub struct ProbeRun {
    /// Iterations still to perform.
    pub remaining: usize,
    /// Completed round-trip times, microseconds, in order of completion.
    pub samples: Vec<u64>,
}

impl ProbeRun {
    /// Starts a run of `iterations` exchanges with no samples yet.
    pub fn start(iterations: usize) -> (r: ProbeRun)
        ensures
            r.remaining == iterations,
            r.samples@ == Seq::<u64>::empty(),
    {
        ProbeRun { remaining: iterations, samples: Vec::new() }
    }

    /// The first action of a run: probe if any iteration was requested,
    /// otherwise finish at once with an empty sample sequence.
    pub fn first_action(&self) -> (a: ClientAction)
        ensures
            a == (if self.remaining > 0 {
                ClientAction::SendProbe
            } else {
                ClientAction::Finish
            }),
    {
        if self.remaining > 0 {
            ClientAction::SendProbe
        } else {
            ClientAction::Finish
        }
    }

    /// Advances the run by one exchange outcome.
    ///
    /// A reply equal to the expected doubled frame is recorded as one sample
    /// and the run goes on (or finishes when it was the last iteration). Any
    /// other reply is a protocol violation and aborts the run recording
    /// nothing; a transport failure likewise aborts the run.
    pub fn step(self, event: &ClientEvent) -> (r: (ProbeRun, ClientAction))
        requires
            self.remaining > 0,
        ensures
            (*event matches ClientEvent::TransportFailed ==> ({
                &&& r.0.remaining == self.remaining
                &&& r.0.samples@ == self.samples@
                &&& r.1 == ClientAction::Abort(ProbeError::TransportError)
            })),
            (*event matches ClientEvent::Reply { bytes, elapsed_micros } ==> (
                if bytes@ == echo_seq() {
                    ({
                        &&& r.0.remaining == self.remaining - 1
                        &&& r.0.samples@ == self.samples@.push(elapsed_micros)
                        &&& r.1 == (if self.remaining == 1 {
                            ClientAction::Finish
                        } else {
                            ClientAction::SendProbe
                        })
                    })
                } else {
                    ({
                        &&& r.0.remaining == self.remaining
                        &&& r.0.samples@ == self.samples@
                        &&& r.1 == ClientAction::Abort(ProbeError::ProtocolViolation)
                    })
                }
            )),
    {
        match event {
            ClientEvent::TransportFailed => {
                (self, ClientAction::Abort(ProbeError::TransportError))
            },
            ClientEvent::Reply { bytes, elapsed_micros } => {
                let expected = echo_bytes();
                if bytes_eq(bytes, &expected) {
                    let mut next = self;
                    next.remaining = next.remaining - 1;
                    next.samples.push(*elapsed_micros);
                    let action = if next.remaining == 0 {
                        ClientAction::Finish
                    } else {
                        ClientAction::SendProbe
                    };
                    (next, action)
                } else {
                    (self, ClientAction::Abort(ProbeError::ProtocolViolation))
                }
            },
        }
    }
}

/// Whether an exchange outcome lets the run go on: only a reply equal to
/// the expected doubled frame does.
pub open spec fn event_ok(e: ClientEvent) -> bool {
    e matches ClientEvent::Reply { bytes, .. } && bytes@ == echo_seq()
}

/// The sample an accepted outcome contributes.
pub open spec fn event_elapsed(e: ClientEvent) -> u64
    recommends
        e is Reply,
{
    match e {
        ClientEvent::Reply { elapsed_micros, .. } => elapsed_micros,
        ClientEvent::TransportFailed => 0,
    }
}

/// The failure a rejected outcome aborts the run with.
pub open spec fn event_error(e: ClientEvent) -> ProbeError {
    match e {
        ClientEvent::TransportFailed => ProbeError::TransportError,
        ClientEvent::Reply { .. } => ProbeError::ProtocolViolation,
    }
}

/// Folds one whole run over a transcript of exchange outcomes, in order.
///
/// The run succeeds, with the full sample sequence, exactly when each of the
/// first `iterations` outcomes is a correct echo reply; otherwise it stops
/// at the first outcome that is not, with that outcome's failure, and no
/// later outcome is looked at.
pub fn run_transcript(iterations: usize, events: &Vec<ClientEvent>) -> (r: Result<
    Vec<u64>,
    ProbeError,
>)
    requires
        events@.len() >= iterations,
    ensures
        (forall|k: int| 0 <= k < iterations ==> event_ok(events@[k])) <==> r is Ok,
        (r matches Ok(samples) ==> samples@ == Seq::new(
            iterations as nat,
            |k: int| event_elapsed(events@[k]),
        )),
        (r matches Err(e) ==> exists|k: int|
            {
                &&& 0 <= k < iterations
                &&& !(#[trigger] event_ok(events@[k]))
                &&& forall|j: int| 0 <= j < k ==> event_ok(events@[j])
                &&& e == event_error(events@[k])
            }),
{
    let mut run = ProbeRun::start(iterations);
    let mut i: usize = 0;
    while i < iterations
        invariant
            i <= iterations,
            events@.len() >= iterations,
            run.remaining == iterations - i,
            forall|j: int| 0 <= j < i ==> event_ok(events@[j]),
            run.samples@ == Seq::new(i as nat, |k: int| event_elapsed(events@[k])),
        decreases iterations - i,
    {
        let ev = &events[i];
        let (next, act) = run.step(ev);
        run = next;
        if let ClientAction::Abort(e) = act {
            proof {
                assert(!event_ok(events@[i as int]) && e == event_error(events@[i as int]));
            }
            return Err(e);
        }
        i = i + 1;
        proof {
            assert(run.samples@ =~= Seq::new(i as nat, |k: int| event_elapsed(events@[k])));
        }
    }
    Ok(run.samples)
}

} // verus!
