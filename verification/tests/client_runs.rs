use echo_probe::client::{run_transcript, ClientAction, ClientEvent, ProbeRun};
use echo_probe::error::ProbeError;
use echo_probe::protocol::{echo_bytes, probe_bytes};
use echo_probe::server::serve_frame;

/// Drives a run of `n` iterations against an in-process server that answers
/// each probe with `reply_of(probe)`, timing each exchange with the given
/// elapsed values.
fn drive(
    n: usize,
    elapsed: &[u64],
    reply_of: impl Fn(Vec<u8>) -> Vec<u8>,
) -> Result<Vec<u64>, ProbeError> {
    let mut run = ProbeRun::start(n);
    let mut action = run.first_action();
    let mut i = 0;
    loop {
        match action {
            ClientAction::SendProbe => {
                let reply = reply_of(probe_bytes());
                let event = ClientEvent::Reply {
                    bytes: reply,
                    elapsed_micros: elapsed[i],
                };
                i += 1;
                assert!(run.remaining > 0);
                let (next, act) = run.step(&event);
                run = next;
                action = act;
            }
            ClientAction::Finish => return Ok(run.samples),
            ClientAction::Abort(e) => return Err(e),
        }
    }
}

#[test]
fn five_iterations_against_a_correct_server() {
    // A run of five exchanges against a correctly behaving server yields
    // five samples, every one strictly greater than zero.
    let elapsed = [3, 1, 4, 1, 5];
    let samples = drive(5, &elapsed, serve_frame).expect("the run must succeed");
    assert_eq!(samples.len(), 5);
    assert!(samples.iter().all(|&s| s > 0));
    assert_eq!(samples, vec![3, 1, 4, 1, 5]);
}

#[test]
fn wrong_echo_is_a_protocol_violation_not_a_sample() {
    let err = drive(5, &[10, 10, 10, 10, 10], |_| b"wrong!wrong!".to_vec())
        .expect_err("a wrong echo must abort the run");
    assert_eq!(err, ProbeError::ProtocolViolation);
}

#[test]
fn wrong_echo_after_good_ones_keeps_no_partial_success() {
    let run = ProbeRun::start(3);
    let (run, act) = run.step(&ClientEvent::Reply {
        bytes: echo_bytes(),
        elapsed_micros: 9,
    });
    assert_eq!(act, ClientAction::SendProbe);
    let (run, act) = run.step(&ClientEvent::Reply {
        bytes: b"wrong!wrong!".to_vec(),
        elapsed_micros: 9,
    });
    assert_eq!(act, ClientAction::Abort(ProbeError::ProtocolViolation));
    // The violating exchange contributed no sample.
    assert_eq!(run.samples, vec![9]);
    assert_eq!(run.remaining, 2);
}

#[test]
fn short_reply_is_a_violation() {
    let err = drive(2, &[5, 5], |_| b"proto!".to_vec())
        .expect_err("a short reply must abort the run");
    assert_eq!(err, ProbeError::ProtocolViolation);
}

#[test]
fn transport_failure_aborts_the_run() {
    // The peer closing mid-frame surfaces as a failed read, never as a
    // short, unvalidated buffer.
    let run = ProbeRun::start(4);
    let (run, act) = run.step(&ClientEvent::TransportFailed);
    assert_eq!(act, ClientAction::Abort(ProbeError::TransportError));
    assert_eq!(run.samples, Vec::<u64>::new());
}

#[test]
fn zero_iterations_finish_at_once() {
    let run = ProbeRun::start(0);
    assert_eq!(run.first_action(), ClientAction::Finish);
    assert_eq!(run.samples, Vec::<u64>::new());
}

#[test]
fn last_good_reply_finishes_the_run() {
    let run = ProbeRun::start(1);
    assert_eq!(run.first_action(), ClientAction::SendProbe);
    let (run, act) = run.step(&ClientEvent::Reply {
        bytes: echo_bytes(),
        elapsed_micros: 17,
    });
    assert_eq!(act, ClientAction::Finish);
    assert_eq!(run.samples, vec![17]);
    assert_eq!(run.remaining, 0);
}

#[test]
fn transcript_of_correct_echoes_succeeds() {
    let events: Vec<ClientEvent> = (1..=5u64)
        .map(|t| ClientEvent::Reply {
            bytes: echo_bytes(),
            elapsed_micros: t * 10,
        })
        .collect();
    let samples = run_transcript(5, &events).expect("all echoes were correct");
    assert_eq!(samples, vec![10, 20, 30, 40, 50]);
    assert!(samples.iter().all(|&s| s > 0));
}

#[test]
fn transcript_stops_at_the_first_bad_outcome() {
    let events = vec![
        ClientEvent::Reply { bytes: echo_bytes(), elapsed_micros: 4 },
        ClientEvent::Reply { bytes: b"wrong!wrong!".to_vec(), elapsed_micros: 4 },
        ClientEvent::TransportFailed,
    ];
    let err = run_transcript(3, &events).expect_err("the second reply was wrong");
    assert_eq!(err, ProbeError::ProtocolViolation);
}

#[test]
fn transcript_with_a_failed_transport_errors() {
    let events = vec![ClientEvent::TransportFailed];
    let err = run_transcript(1, &events).expect_err("the transport failed");
    assert_eq!(err, ProbeError::TransportError);
}

#[test]
fn empty_transcript_of_zero_iterations_succeeds() {
    let samples = run_transcript(0, &Vec::new()).expect("nothing was asked");
    assert_eq!(samples, Vec::<u64>::new());
}

#[test]
fn error_kinds_describe_themselves() {
    assert_eq!(ProbeError::AddressError.describe(), "malformed address");
    assert_eq!(ProbeError::TransportError.describe(), "transport failure");
    assert_eq!(ProbeError::ProtocolViolation.describe(), "protocol violation");
}
