//! The broker's rules: what one turn of its loop does, and what becomes of
//! a message received on each of its three sockets.
//!
//! The loop itself, with its sockets, runs outside this library. It asks
//! these functions what to do and hands back what happened.

use crate::summary::{format_message, frames_of, message_summary};
use crate::text::{decimal, push_decimal};
use vstd::prelude::*;
use vstd::string::StringExecFns;

verus! {

/// How long one poll waits, in milliseconds, before the loop looks at the
/// shutdown flag again.
pub const POLL_TIMEOUT_MS: i64 = 50;

/// The number of frames of an envelope: identity, delimiter, payload.
pub const ENVELOPE_FRAMES: usize = 3;

/// The sockets of the broker, in the order in which they are polled.
#[derive(Clone, Copy, Debug, PartialEq, Eq, Structural)]
pub enum Socket {
    /// Peers exchange envelopes through it.
    DirectRelay,
    /// Clients send their requests to it.
    ClientFacing,
    /// Workers take requests from it and send their replies to it.
    WorkerFacing,
}

/// The state of the broker's loop.
#[derive(Clone, Copy, Debug, PartialEq, Eq, Structural)]
pub enum BrokerState {
    Running,
    ShuttingDown,
}

/// What the loop does at the start of a turn.
#[derive(Clone, Copy, Debug, PartialEq, Eq, Structural)]
pub enum Turn {
    /// Poll the three sockets, for at most this many milliseconds.
    Poll { timeout_ms: i64 },
    /// Leave the loop; the broker has finished without error.
    Finish,
}

/// Which sockets a poll found readable.
#[derive(Clone, Copy, Debug, PartialEq, Eq, Structural)]
pub struct Readiness {
    pub direct_relay: bool,
    pub client_facing: bool,
    pub worker_facing: bool,
}

/// How a poll ended.
#[derive(Clone, Copy, Debug, PartialEq, Eq, Structural)]
pub enum PollOutcome {
    /// The poll returned, with these sockets readable.
    Ready(Readiness),
    /// The wait was interrupted by a signal.
    Interrupted,
    /// The poll failed for another reason.
    Failed,
}

/// What the loop does after a poll.
#[derive(Debug, PartialEq, Eq)]
pub enum AfterPoll {
    /// Receive one message from each of these sockets, in this order.
    Serve(Vec<Socket>),
    /// Nothing to do in this turn.
    Idle,
    /// Leave the loop with the poll's error.
    Abort,
}

/// A message to send on a socket.
#[derive(Debug, PartialEq, Eq)]
pub struct Delivery {
    pub socket: Socket,
    pub frames: Vec<Vec<u8>>,
}

/// What becomes of a received message: at most one message to send, and at
/// most one warning for the log.
#[derive(Debug, PartialEq, Eq)]
pub struct Handled {
    pub send: Option<Delivery>,
    pub warning: Option<String>,
}

/// The sockets to serve after a poll: the readable ones, in polling order.
pub open spec fn readable_sockets(ready: Readiness) -> Seq<Socket> {
    (if ready.direct_relay {
        seq![Socket::DirectRelay]
    } else {
        Seq::empty()
    }) + (if ready.client_facing {
        seq![Socket::ClientFacing]
    } else {
        Seq::empty()
    }) + (if ready.worker_facing {
        seq![Socket::WorkerFacing]
    } else {
        Seq::empty()
    })
}

/// The socket on which a message received on `from` leaves again.
pub open spec fn destination(from: Socket) -> Socket {
    match from {
        Socket::DirectRelay => Socket::DirectRelay,
        Socket::ClientFacing => Socket::WorkerFacing,
        Socket::WorkerFacing => Socket::ClientFacing,
    }
}

/// An envelope with its identity and delimiter frames exchanged.
pub open spec fn reversed_envelope(frames: Seq<Seq<u8>>) -> Seq<Seq<u8>> {
    seq![frames[1], frames[0], frames[2]]
}

/// The warning for a message on the direct-relay socket that is no
/// envelope.
pub open spec fn malformed_warning(frames: Seq<Seq<u8>>) -> Seq<char> {
    "unexpected direct-relay message ("@ + decimal(frames.len()) + " frames): "@ + message_summary(
        frames,
    )
}

/// The frames to send for a message received on `from`, if any.
pub open spec fn frames_to_send(from: Socket, frames: Seq<Seq<u8>>) -> Option<Seq<Seq<u8>>> {
    match from {
        Socket::DirectRelay => if frames.len() == ENVELOPE_FRAMES {
            Some(reversed_envelope(frames))
        } else {
            None
        },
        _ => Some(frames),
    }
}

/// Starts a turn of the loop. A running broker polls unless the shutdown
/// flag is set; once it is shutting down it never runs again.
pub fn begin_turn(state: BrokerState, shutdown: bool) -> (next: (BrokerState, Turn))
    ensures
        state == BrokerState::Running && !shutdown ==> next == (
            BrokerState::Running,
            Turn::Poll { timeout_ms: POLL_TIMEOUT_MS },
        ),
        state == BrokerState::ShuttingDown || shutdown ==> next == (
            BrokerState::ShuttingDown,
            Turn::Finish,
        ),
{
    match state {
        BrokerState::Running => {
            if shutdown {
                (BrokerState::ShuttingDown, Turn::Finish)
            } else {
                (BrokerState::Running, Turn::Poll { timeout_ms: POLL_TIMEOUT_MS })
            }
        },
        BrokerState::ShuttingDown => (BrokerState::ShuttingDown, Turn::Finish),
    }
}

/// Decides what follows a poll: the readable sockets are served in polling
/// order, an interrupted wait is passed over, any other failure ends the
/// loop.
pub fn after_poll(outcome: PollOutcome) -> (step: AfterPoll)
    ensures
        match outcome {
            PollOutcome::Ready(ready) => step matches AfterPoll::Serve(sockets) && sockets@
                == readable_sockets(ready),
            PollOutcome::Interrupted => step is Idle,
            PollOutcome::Failed => step is Abort,
        },
{
    match outcome {
        PollOutcome::Ready(ready) => {
            let mut sockets: Vec<Socket> = Vec::new();
            if ready.direct_relay {
                sockets.push(Socket::DirectRelay);
            }
            if ready.client_facing {
                sockets.push(Socket::ClientFacing);
            }
            if ready.worker_facing {
                sockets.push(Socket::WorkerFacing);
            }
            assert(sockets@ =~= readable_sockets(ready));
            AfterPoll::Serve(sockets)
        },
        PollOutcome::Interrupted => AfterPoll::Idle,
        PollOutcome::Failed => AfterPoll::Abort,
    }
}

/// The socket on which a message received on `from` leaves again: the
/// direct-relay socket answers on itself, the other two forward to each
/// other.
pub fn destination_of(from: Socket) -> (to: Socket)
    ensures
        to == destination(from),
{
    match from {
        Socket::DirectRelay => Socket::DirectRelay,
        Socket::ClientFacing => Socket::WorkerFacing,
        Socket::WorkerFacing => Socket::ClientFacing,
    }
}

/// Exchanges the first two frames of a message of three frames.
fn reverse_envelope(message: Vec<Vec<u8>>) -> (reply: Vec<Vec<u8>>)
    requires
        message.len() == ENVELOPE_FRAMES,
    ensures
        frames_of(reply@) == reversed_envelope(frames_of(message@)),
{
    let mut message = message;
    let ghost frames = frames_of(message@);
    let payload = message.pop().unwrap();
    let delimiter = message.pop().unwrap();
    let identity = message.pop().unwrap();
    assert(payload@ == frames[2] && delimiter@ == frames[1] && identity@ == frames[0]);
    let mut reply: Vec<Vec<u8>> = Vec::new();
    reply.push(delimiter);
    reply.push(identity);
    reply.push(payload);
    assert(frames_of(reply@) =~= reversed_envelope(frames));
    reply
}

/// Writes the warning for a message on the direct-relay socket that is no
/// envelope.
pub fn warn_malformed(message: &Vec<Vec<u8>>) -> (warning: String)
    ensures
        warning@ == malformed_warning(frames_of(message@)),
{
    let mut warning = String::from_str("unexpected direct-relay message (");
    push_decimal(&mut warning, message.len());
    warning.append(" frames): ");
    let summary = format_message(message.as_slice());
    warning.append(summary.as_str());
    warning
}

/// Decides what becomes of a message received on `from`.
///
/// On the direct-relay socket an envelope `[A, B, C]` is answered on the
/// same socket with `[B, A, C]`; any other message is dropped with a
/// warning. A message from the client-facing socket is sent as it is on the
/// worker-facing socket, and one from the worker-facing socket as it is on
/// the client-facing socket.
pub fn handle_message(from: Socket, message: Vec<Vec<u8>>) -> (handled: Handled)
    ensures
        match frames_to_send(from, frames_of(message@)) {
            Some(frames) => {
                &&& handled.send matches Some(delivery) && delivery.socket == destination(from)
                    && frames_of(delivery.frames@) == frames
                &&& handled.warning is None
            },
            None => {
                &&& handled.send is None
                &&& handled.warning matches Some(text) && text@ == malformed_warning(
                    frames_of(message@),
                )
            },
        },
{
    match from {
        Socket::DirectRelay => {
            if message.len() == ENVELOPE_FRAMES {
                let frames = reverse_envelope(message);
                Handled {
                    send: Some(Delivery { socket: Socket::DirectRelay, frames }),
                    warning: None,
                }
            } else {
                Handled { send: None, warning: Some(warn_malformed(&message)) }
            }
        },
        _ => Handled {
            send: Some(Delivery { socket: destination_of(from), frames: message }),
            warning: None,
        },
    }
}

} // verus!
