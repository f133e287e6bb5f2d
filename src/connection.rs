//! One subscribed websocket connection: the keep-alive heartbeat and the
//! handling of frames that the peer sends.
use vstd::prelude::*;
use crate::frame::{decode_error, decode_frame, encode_frame, frame_of, opcode_of, payload_byte,
    length_field_of, FrameError, PING_FRAME, PONG_FRAME};

verus! {

/// Seconds a pong may take after a ping before the connection is dropped.
pub const PONG_TIMEOUT_SECS: u64 = 10;

#[derive(Clone, Copy, Debug, PartialEq, Eq, Structural)]
pub enum HeartbeatState {
    /// The last ping was answered; the next one goes out when the deadline fires.
    Idle,
    /// A ping is out and its deadline is running.
    AwaitingPong,
    /// A deadline fired before the pong came: the connection is to be torn down.
    Failed,
}

#[derive(Clone, Copy, Debug, PartialEq, Eq, Structural)]
pub enum HeartbeatEvent {
    PongReceived,
    DeadlineElapsed,
}

#[derive(Clone, Copy, Debug, PartialEq, Eq, Structural)]
pub enum HeartbeatAction {
    Nothing,
    /// Send a ping frame, then arm a deadline of `PONG_TIMEOUT_SECS`.
    SendPing,
    /// Tear the connection down and unsubscribe it.
    Fail,
}

/// The heartbeat's transition function.
pub open spec fn heartbeat_next(s: HeartbeatState, e: HeartbeatEvent) -> (HeartbeatState, HeartbeatAction) {
    match (s, e) {
        (HeartbeatState::Failed, _) => (HeartbeatState::Failed, HeartbeatAction::Nothing),
        (HeartbeatState::AwaitingPong, HeartbeatEvent::PongReceived) => (HeartbeatState::Idle, HeartbeatAction::Nothing),
        (HeartbeatState::AwaitingPong, HeartbeatEvent::DeadlineElapsed) => (HeartbeatState::Failed, HeartbeatAction::Fail),
        (HeartbeatState::Idle, HeartbeatEvent::PongReceived) => (HeartbeatState::Idle, HeartbeatAction::Nothing),
        (HeartbeatState::Idle, HeartbeatEvent::DeadlineElapsed) => (HeartbeatState::AwaitingPong, HeartbeatAction::SendPing),
    }
}

/// The state after the events `es`, starting in `s`.
pub open spec fn heartbeat_run(s: HeartbeatState, es: Seq<HeartbeatEvent>) -> HeartbeatState
    decreases es.len(),
{
    if es.len() == 0 {
        s
    } else {
        heartbeat_next(heartbeat_run(s, es.drop_last()), es.last()).0
    }
}

/// `n` heartbeat cycles in each of which the pong comes before the deadline.
pub open spec fn answered_cycles(n: nat) -> Seq<HeartbeatEvent>
    decreases n,
{
    if n == 0 {
        seq![]
    } else {
        answered_cycles((n - 1) as nat) + seq![HeartbeatEvent::PongReceived, HeartbeatEvent::DeadlineElapsed]
    }
}

/// The deadline firing while the pong is still awaited fails the connection
/// and asks for it to be torn down.
pub proof fn lemma_missed_pong_fails()
    ensures
        heartbeat_next(HeartbeatState::AwaitingPong, HeartbeatEvent::DeadlineElapsed)
            == (HeartbeatState::Failed, HeartbeatAction::Fail),
        forall|e: HeartbeatEvent| #[trigger] heartbeat_next(HeartbeatState::Failed, e).0 == HeartbeatState::Failed,
{
}

/// While every ping is answered before its deadline, the heartbeat never
/// fails: after any number of answered cycles, and at every point within
/// them, the connection is live, and each cycle ends with a new ping out.
pub proof fn lemma_answered_pings_never_fail(n: nat)
    ensures
        heartbeat_run(HeartbeatState::AwaitingPong, answered_cycles(n)) == HeartbeatState::AwaitingPong,
        forall|k: int| 0 <= k <= answered_cycles(n).len() ==>
            heartbeat_run(HeartbeatState::AwaitingPong, #[trigger] answered_cycles(n).take(k)) != HeartbeatState::Failed,
    decreases n,
{
    let c = answered_cycles(n);
    if n == 0 {
        assert forall|k: int| 0 <= k <= c.len() implies
            heartbeat_run(HeartbeatState::AwaitingPong, #[trigger] c.take(k)) != HeartbeatState::Failed by {
            assert(c.take(k).len() == 0);
        }
    } else {
        let p = answered_cycles((n - 1) as nat);
        lemma_answered_pings_never_fail((n - 1) as nat);
        let m = p.len() as int;
        assert(c.len() == m + 2);
        assert(c.take(m + 1).drop_last() =~= p);
        assert(c.take(m + 2).drop_last() =~= c.take(m + 1));
        assert(c.drop_last() =~= c.take(m + 1));
        assert(c.take(m + 1).last() == HeartbeatEvent::PongReceived);
        assert forall|k: int| 0 <= k <= c.len() implies
            heartbeat_run(HeartbeatState::AwaitingPong, #[trigger] c.take(k)) != HeartbeatState::Failed by {
            if k <= m {
                assert(c.take(k) =~= p.take(k));
            } else if k == m + 2 {
                assert(c.take(k) =~= c);
            }
        }
    }
}

/// What the server does with one frame from the peer.
pub enum Inbound {
    /// A data or continuation frame; this server reads nothing from them.
    Data,
    /// A pong; the heartbeat has been told.
    Pong,
    /// A ping; send back this pong frame.
    Reply(Vec<u8>),
    /// The peer closes the connection.
    Close,
    /// An opcode this protocol does not define.
    Unrecognized(u8),
    /// The frame was malformed; the connection is to be closed.
    Malformed(FrameError),
}

/// A subscribed connection: its subscriber id and its heartbeat.
pub struct WebSocketStream {
    pub id: u64,
    pub heartbeat: HeartbeatState,
}

/// The frame that pings the peer.
pub fn ping_frame() -> (r: Vec<u8>)
    ensures
        r@ == frame_of(PING_FRAME, seq![]),
{
    let empty: Vec<u8> = Vec::new();
    encode_frame(PING_FRAME, empty.as_slice())
}

impl WebSocketStream {
    /// A connection for subscriber `id`; its first ping is to go out now.
    pub fn new(id: u64) -> (r: (WebSocketStream, HeartbeatAction))
        ensures
            r.0.id == id,
            r.0.heartbeat == HeartbeatState::AwaitingPong,
            r.1 == HeartbeatAction::SendPing,
    {
        (WebSocketStream { id, heartbeat: HeartbeatState::AwaitingPong }, HeartbeatAction::SendPing)
    }

    /// Applies one heartbeat event.
    pub fn step(&mut self, e: HeartbeatEvent) -> (r: HeartbeatAction)
        ensures
            (final(self).heartbeat, r) == heartbeat_next(old(self).heartbeat, e),
            final(self).id == old(self).id,
    {
        let (s, a) = match (self.heartbeat, e) {
            (HeartbeatState::Failed, _) => (HeartbeatState::Failed, HeartbeatAction::Nothing),
            (HeartbeatState::AwaitingPong, HeartbeatEvent::PongReceived) => (HeartbeatState::Idle, HeartbeatAction::Nothing),
            (HeartbeatState::AwaitingPong, HeartbeatEvent::DeadlineElapsed) => (HeartbeatState::Failed, HeartbeatAction::Fail),
            (HeartbeatState::Idle, HeartbeatEvent::PongReceived) => (HeartbeatState::Idle, HeartbeatAction::Nothing),
            (HeartbeatState::Idle, HeartbeatEvent::DeadlineElapsed) => (HeartbeatState::AwaitingPong, HeartbeatAction::SendPing),
        };
        self.heartbeat = s;
        a
    }

    /// Handles one frame from the peer: a pong clears the heartbeat, a ping
    /// is answered with a pong carrying the same payload, a close or a
    /// malformed frame ends the connection.
    pub fn send_bytes(&mut self, message: &[u8]) -> (r: Inbound)
        ensures
            final(self).id == old(self).id,
            match decode_error(message@) {
                Some(e) => r == Inbound::Malformed(e) && final(self).heartbeat == old(self).heartbeat,
                None => {
                    let op = opcode_of(message@);
                    let payload = Seq::new(length_field_of(message@) as nat, |i: int| payload_byte(message@, i));
                    &&& op == 0xa ==> r is Pong
                        && final(self).heartbeat == heartbeat_next(old(self).heartbeat, HeartbeatEvent::PongReceived).0
                    &&& op != 0xa ==> final(self).heartbeat == old(self).heartbeat
                    &&& op == 0x9 ==> (r matches Inbound::Reply(f) && f@ == frame_of(PONG_FRAME, payload))
                    &&& op == 0x8 ==> r is Close
                    &&& (op == 0 || op == 1 || op == 2) ==> r is Data
                    &&& (op != 0 && op != 1 && op != 2 && op != 8 && op != 9 && op != 0xa) ==> r == Inbound::Unrecognized(op)
                },
            },
    {
        match decode_frame(message) {
            Err(e) => Inbound::Malformed(e),
            Ok(d) => {
                if d.opcode == 0xa {
                    self.step(HeartbeatEvent::PongReceived);
                    Inbound::Pong
                } else if d.opcode == 0x9 {
                    let reply = encode_frame(PONG_FRAME, d.payload.as_slice());
                    assert(d.payload@ =~= Seq::new(length_field_of(message@) as nat, |i: int| payload_byte(message@, i)));
                    Inbound::Reply(reply)
                } else if d.opcode == 0x8 {
                    Inbound::Close
                } else if d.opcode <= 2 {
                    Inbound::Data
                } else {
                    Inbound::Unrecognized(d.opcode)
                }
            },
        }
    }
}

} // verus!
