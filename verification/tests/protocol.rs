use echo_probe::protocol::{bytes_eq, echo_bytes, probe_bytes, transform, ECHO_LEN, PROBE_LEN};
use echo_probe::server::{conn_step, handle_datagram, serve_frame, serve_session, ConnAction, ConnEvent, ConnState};

#[test]
fn transform_doubles_a_prefix() {
    let out = transform(vec![1, 2, 3], 2);
    assert_eq!(out, vec![1, 2, 1, 2]);
}

#[test]
fn transform_of_full_buffer() {
    let out = transform(vec![9, 8, 7], 3);
    assert_eq!(out, vec![9, 8, 7, 9, 8, 7]);
}

#[test]
fn transform_of_nothing_is_empty() {
    let out = transform(vec![4, 5], 0);
    assert_eq!(out, Vec::<u8>::new());
    let out = transform(Vec::new(), 0);
    assert_eq!(out, Vec::<u8>::new());
}

#[test]
fn transform_output_length_is_doubled() {
    for n in 0..=6 {
        let out = transform(vec![0xab; 6], n);
        assert_eq!(out.len(), 2 * n);
    }
}

#[test]
fn probe_frame_is_the_fixed_literal() {
    let p = probe_bytes();
    assert_eq!(p, b"proto!".to_vec());
    assert_eq!(p.len(), PROBE_LEN);
}

#[test]
fn echo_frame_is_the_doubled_literal() {
    let e = echo_bytes();
    assert_eq!(e, b"proto!proto!".to_vec());
    assert_eq!(e.len(), ECHO_LEN);
}

#[test]
fn correct_server_echoes_the_probe() {
    // A correctly behaving server answers "proto!" with exactly "proto!proto!".
    let reply = serve_frame(probe_bytes());
    assert_eq!(reply, echo_bytes());
}

#[test]
fn bytes_eq_agrees_with_equality() {
    assert!(bytes_eq(&vec![1, 2, 3], &vec![1, 2, 3]));
    assert!(!bytes_eq(&vec![1, 2, 3], &vec![1, 2, 4]));
    assert!(!bytes_eq(&vec![1, 2, 3], &vec![1, 2]));
    assert!(bytes_eq(&Vec::new(), &Vec::new()));
}

#[test]
fn datagram_reply_targets_the_sender_just_heard() {
    // Two distinct clients get independent, correctly addressed replies.
    let (reply_a, addr_a) = handle_datagram(b"proto!".to_vec(), 6, 41u32);
    let (reply_b, addr_b) = handle_datagram(b"probe.".to_vec(), 6, 42u32);
    assert_eq!(addr_a, 41);
    assert_eq!(addr_b, 42);
    assert_eq!(reply_a, b"proto!proto!".to_vec());
    assert_eq!(reply_b, b"probe.probe.".to_vec());
}

#[test]
fn datagram_reply_doubles_only_received_bytes() {
    let (reply, addr) = handle_datagram(vec![1, 2, 3, 4, 5, 6], 2, 7u64);
    assert_eq!(reply, vec![1, 2, 1, 2]);
    assert_eq!(addr, 7);
}

#[test]
fn connection_answers_frames_until_io_fails() {
    let st = ConnState::WaitingForFrame;
    let (st, act) = conn_step(st, ConnEvent::FrameRead(b"proto!".to_vec()));
    assert_eq!(st, ConnState::WaitingForFrame);
    match act {
        ConnAction::WriteReply(b) => assert_eq!(b, b"proto!proto!".to_vec()),
        ConnAction::DropConn => panic!("a complete frame must be answered"),
    }
    let (st, act) = conn_step(st, ConnEvent::IoFailed);
    assert_eq!(st, ConnState::Closed);
    assert!(matches!(act, ConnAction::DropConn));
}

#[test]
fn one_connection_serves_frames_in_order() {
    let frames = vec![b"proto!".to_vec(), b"again!".to_vec(), b"third!".to_vec()];
    let replies = serve_session(frames);
    assert_eq!(
        replies,
        vec![
            b"proto!proto!".to_vec(),
            b"again!again!".to_vec(),
            b"third!third!".to_vec(),
        ]
    );
}

#[test]
fn sessions_share_no_state() {
    // The same frame gets the same reply in both sessions, whatever else
    // either connection carried before it.
    let first = serve_session(vec![b"aaaaaa".to_vec(), b"proto!".to_vec()]);
    let second = serve_session(vec![b"proto!".to_vec()]);
    assert_eq!(first[1], second[0]);
    assert_eq!(second[0], b"proto!proto!".to_vec());
}

#[test]
fn empty_session_has_no_replies() {
    assert_eq!(serve_session(Vec::new()), Vec::<Vec<u8>>::new());
}
