//! The echo server's per-exchange logic, for both transports.
//!
//! The connectionless variant answers each datagram independently: double the
//! received bytes and address the reply to the sender of the datagram just
//! received. The connection-oriented variant serves fixed-size frames on one
//! connection until an I/O failure closes it; connections share no state.

use vstd::prelude::*;
use crate::protocol::{transform, double_spec};

verus! {

/// One connectionless exchange: double the first `size` received bytes and
/// carry the sender's address forward unchanged, so the reply is addressed
/// to the peer of the datagram just received, never a cached one.
pub fn handle_datagram<A>(buf: Vec<u8>, size: usize, peer: A) -> (r: (Vec<u8>, A))
    requires
        size <= buf.len(),
    ensures
        r.0@ == double_spec(buf@.subrange(0, size as int)),
        r.1 == peer,
{
    let reply = transform(buf, size);
    (reply, peer)
}

/// Serves one complete frame: the reply is the frame's doubled image.
pub fn serve_frame(frame: Vec<u8>) -> (r: Vec<u8>)
    ensures
        r@ == double_spec(frame@),
        r@.len() == 2 * frame@.len(),
{
    let ghost f = frame@;
    let n = frame.len();
    let r = transform(frame, n);
    proof {
        assert(f.subrange(0, n as int) =~= f);
    }
    r
}

/// The protocol state of one accepted connection. A connection waits for a
/// frame, answers it, and waits again; an I/O failure closes it for good.
/// (Transforming and writing happen within one step here, so the two
/// intermediate states collapse into the step itself.)
#[derive(Clone, Copy, PartialEq, Eq, Structural, Debug)]
pub enum ConnState {
    /// Initial and resting state: ready to read the next frame.
    WaitingForFrame,
    /// Terminal state: the connection was dropped.
    Closed,
}

/// What the transport observed on one connection.
pub enum ConnEvent {
    /// A complete fixed-size frame was read.
    FrameRead(Vec<u8>),
    /// The read or the write failed, or the peer disconnected.
    IoFailed,
}

/// What the transport must do on one connection next.
pub enum ConnAction {
    /// Write this whole reply back, then read the next frame.
    WriteReply(Vec<u8>),
    /// Drop this one connection; others and the listener are unaffected.
    DropConn,
}

/// Advances one connection by one observed event.
///
/// A complete frame is answered with its doubled image and the connection
/// keeps waiting for the next frame; any I/O failure closes just this
/// connection.
pub fn conn_step(state: ConnState, event: ConnEvent) -> (r: (ConnState, ConnAction))
    requires
        state == ConnState::WaitingForFrame,
    ensures
        (event matches ConnEvent::FrameRead(frame) ==> ({
            &&& r.0 == ConnState::WaitingForFrame
            &&& (r.1 matches ConnAction::WriteReply(b) && b@ == double_spec(frame@))
        })),
        (event matches ConnEvent::IoFailed ==> ({
            &&& r.0 == ConnState::Closed
            &&& r.1 is DropConn
        })),
{
    match event {
        ConnEvent::FrameRead(frame) => {
            let reply = serve_frame(frame);
            (ConnState::WaitingForFrame, ConnAction::WriteReply(reply))
        },
        ConnEvent::IoFailed => (ConnState::Closed, ConnAction::DropConn),
    }
}

/// The replies one connection produces for a sequence of frames: each reply
/// is the doubled image of its own frame and of nothing else.
pub open spec fn session_replies(frames: Seq<Seq<u8>>) -> Seq<Seq<u8>> {
    frames.map(|i: int, f: Seq<u8>| double_spec(f))
}

/// Serves a whole session: N sequential frames on one connection, in order.
pub fn serve_session(frames: Vec<Vec<u8>>) -> (r: Vec<Vec<u8>>)
    ensures
        r.deep_view() == session_replies(frames.deep_view()),
{
    let mut r: Vec<Vec<u8>> = Vec::new();
    let mut frames = frames;
    let ghost all = frames.deep_view();
    let n = frames.len();
    let mut i: usize = 0;
    while i < n
        invariant
            i <= n,
            n == frames.len(),
            frames.deep_view() == all,
            r.deep_view() == session_replies(all.subrange(0, i as int)),
        decreases n - i,
    {
        let frame = frames[i].clone();
        proof {
            assert(frame@ =~= all[i as int]);
        }
        let ghost fidx = i as int;
        let ghost rv = r@;
        let ghost prev = r.deep_view();
        let reply = serve_frame(frame);
        r.push(reply);
        i = i + 1;
        proof {
            let sub = all.subrange(0, i as int);
            assert(reply.deep_view() =~= reply@);
            assert(r@ == rv.push(reply));
            assert(prev.len() == rv.len());
            assert(prev == session_replies(all.subrange(0, fidx)));
            assert(prev.len() == all.subrange(0, fidx).len());
            assert(rv.len() == fidx);
            assert(sub.len() == i as int);
            assert(r.deep_view().len() == r@.len() == i as int);
            assert forall|k: int| 0 <= k < r.deep_view().len() implies r.deep_view()[k]
                == session_replies(sub)[k] by {
                assert(session_replies(sub)[k] == double_spec(sub[k]));
                assert(sub[k] == all[k]);
                if k < rv.len() {
                    assert(r.deep_view()[k] == rv[k].deep_view());
                    assert(prev[k] == rv[k].deep_view());
                    let presub = all.subrange(0, fidx);
                    assert(prev[k] == session_replies(presub)[k]);
                    assert(session_replies(presub)[k] == double_spec(presub[k]));
                    assert(presub[k] == all[k]);
                } else {
                    assert(k == rv.len() == fidx);
                    assert(r.deep_view()[k] == reply.deep_view());
                    assert(reply@ == double_spec(frame@));
                    assert(frame@ == all[k]);
                }
            }
            assert(r.deep_view().len() == session_replies(sub).len());
            assert(r.deep_view() =~= session_replies(sub));
        }
    }
    proof {
        assert(all.subrange(0, n as int) =~= all);
    }
    r
}

/// Connections are fully independent: the reply at any position of any
/// session depends on that position's frame alone. Two sessions that carry
/// equal frames at some positions get equal replies there, whatever else
/// either session carried before or after.
pub proof fn lemma_sessions_independent(s1: Seq<Seq<u8>>, s2: Seq<Seq<u8>>, i: int, j: int)
    requires
        0 <= i < s1.len(),
        0 <= j < s2.len(),
        s1[i] == s2[j],
    ensures
        session_replies(s1)[i] == session_replies(s2)[j],
{
}

} // verus!
