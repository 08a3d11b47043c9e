//! Decisions of the transport: what a connection handler does with the bytes
//! of one read, what the accept loop does after each attempt, how a failed
//! bind is resolved, and when a probe counts as answered.

use vstd::prelude::*;
use crate::message::{AppMessage, FormatError, FRAME_WIDTH};
use crate::queue::MessageQueue;

verus! {

/// File name of the endpoint inside the per-user runtime directory.
pub const SOCKET_NAME: &'static str = "gall.socket";

/// Environment variable that names the per-user runtime directory.
pub const RUNTIME_DIR_VAR: &'static str = "XDG_RUNTIME_DIR";

/// Size of the buffer a handler reads into.
pub const READ_BUFFER: usize = 1024;

/// Pause of the accept loop when no connection is waiting, in milliseconds.
pub const ACCEPT_PAUSE_MS: u64 = 10;

/// What a handler does with the bytes of one read.
#[derive(PartialEq, Eq, Structural, Clone, Copy, Debug)]
pub enum FrameAction {
    /// The peer has disconnected: stop reading.
    Hangup,
    /// A ping: write its frame back at once.
    Reply(AppMessage),
    /// Any other message: hand it to the queue.
    Enqueue(AppMessage),
    /// Not a frame: drop the bytes and go on reading.
    Drop(FormatError),
}

/// The action for the bytes of one read.
pub open spec fn frame_action(bytes: Seq<u8>) -> FrameAction {
    if bytes.len() == 0 {
        FrameAction::Hangup
    } else {
        match AppMessage::decode_spec(bytes) {
            Ok(AppMessage::AppPing) => FrameAction::Reply(AppMessage::AppPing),
            Ok(message) => FrameAction::Enqueue(message),
            Err(e) => FrameAction::Drop(e),
        }
    }
}

/// Decides what to do with the bytes of one read. An empty read means the
/// peer is gone; a ping is answered; another message is queued; anything
/// else is dropped without ending the connection.
pub fn on_read(bytes: &[u8]) -> (action: FrameAction)
    ensures
        action == frame_action(bytes@),
{
    if bytes.len() == 0 {
        return FrameAction::Hangup;
    }
    match AppMessage::decode(bytes) {
        Ok(AppMessage::AppPing) => FrameAction::Reply(AppMessage::AppPing),
        Ok(message) => FrameAction::Enqueue(message),
        Err(e) => FrameAction::Drop(e),
    }
}

/// What the handler tells its connection after one read.
#[derive(PartialEq, Eq, Debug)]
pub enum Served {
    /// Stop reading and close the connection.
    Hangup,
    /// Write this frame back, then go on reading.
    Reply([u8; FRAME_WIDTH]),
    /// Go on reading.
    Continue,
}

/// Handles the bytes of one read against the queue: a ping is echoed and
/// never queued, every other message is appended to the queue, and bytes
/// that are no frame leave the queue as it is.
pub fn handle_frame(bytes: &[u8], queue: &mut MessageQueue) -> (served: Served)
    ensures
        match frame_action(bytes@) {
            FrameAction::Hangup => served == Served::Hangup && final(queue)@ == old(queue)@,
            FrameAction::Reply(m) => final(queue)@ == old(queue)@ && match served {
                Served::Reply(frame) => frame@ == m.encode_spec(),
                _ => false,
            },
            FrameAction::Enqueue(m) => served == Served::Continue && final(queue)@ == old(
                queue,
            )@.push(m),
            FrameAction::Drop(_) => served == Served::Continue && final(queue)@ == old(queue)@,
        },
{
    match on_read(bytes) {
        FrameAction::Hangup => Served::Hangup,
        FrameAction::Reply(m) => {
            Served::Reply(m.encode())
        },
        FrameAction::Enqueue(m) => {
            queue.push(m);
            Served::Continue
        },
        FrameAction::Drop(_) => Served::Continue,
    }
}

/// Whether the bytes read back after a ping are the ping's echo.
pub fn is_ping_reply(reply: &[u8]) -> (alive: bool)
    ensures
        alive == (AppMessage::decode_spec(reply@) == Ok::<AppMessage, FormatError>(
            AppMessage::AppPing,
        )),
{
    match AppMessage::decode(reply) {
        Ok(AppMessage::AppPing) => true,
        _ => false,
    }
}

/// How far a liveness probe got.
#[derive(PartialEq, Eq, Debug)]
pub enum Probe {
    /// The endpoint does not exist as a file.
    NoEndpoint,
    /// Connecting failed.
    Refused,
    /// Writing the ping failed.
    WriteFailed,
    /// No complete reply frame could be read.
    ShortRead,
    /// A reply of frame width was read.
    Replied(Vec<u8>),
}

/// The verdict of a probe.
pub open spec fn probe_alive(probe: Probe) -> bool {
    match probe {
        Probe::Replied(reply) => AppMessage::decode_spec(reply@) == Ok::<AppMessage, FormatError>(
            AppMessage::AppPing,
        ),
        _ => false,
    }
}

/// Whether a daemon is running, judged from how far the probe got: only a
/// ping echoed in full counts.
pub fn process_is_running(probe: &Probe) -> (alive: bool)
    ensures
        alive == probe_alive(*probe),
{
    match probe {
        Probe::Replied(reply) => is_ping_reply(reply.as_slice()),
        _ => false,
    }
}

/// What came of one attempt to accept a connection.
#[derive(PartialEq, Eq, Structural, Clone, Copy, Debug)]
pub enum Accepted {
    /// A peer connected.
    Connection,
    /// Nobody is waiting.
    WouldBlock,
    /// The attempt failed for another reason.
    Failed,
}

/// What the accept loop does next.
#[derive(PartialEq, Eq, Structural, Clone, Copy, Debug)]
pub enum AcceptStep {
    /// Start a handler for the connection, then try again.
    Spawn,
    /// Sleep for the given milliseconds, then try again.
    Pause(u64),
    /// Try again at once.
    Retry,
}

/// The accept loop's next step: it never blocks and never spins while
/// nobody is waiting.
pub fn on_accept(accepted: Accepted) -> (step: AcceptStep)
    ensures
        step == match accepted {
            Accepted::Connection => AcceptStep::Spawn,
            Accepted::WouldBlock => AcceptStep::Pause(ACCEPT_PAUSE_MS),
            Accepted::Failed => AcceptStep::Retry,
        },
{
    match accepted {
        Accepted::Connection => AcceptStep::Spawn,
        Accepted::WouldBlock => AcceptStep::Pause(ACCEPT_PAUSE_MS),
        Accepted::Failed => AcceptStep::Retry,
    }
}

/// How a failed bind of the endpoint is resolved.
#[derive(PartialEq, Eq, Structural, Clone, Copy, Debug)]
pub enum BindStep {
    /// Another daemon holds the endpoint.
    AlreadyBound,
    /// A stale file is in the way: remove it and bind once more.
    RemoveAndRetry,
    /// The endpoint cannot be bound: ask the daemon to close.
    GiveUp,
}

/// Resolves a failed bind. `alive` is the verdict of a probe made after the
/// failure, `retried` tells whether the stale file was already removed
/// once.
pub fn on_bind_failure(alive: bool, retried: bool) -> (step: BindStep)
    ensures
        step == if alive {
            BindStep::AlreadyBound
        } else if !retried {
            BindStep::RemoveAndRetry
        } else {
            BindStep::GiveUp
        },
{
    if alive {
        BindStep::AlreadyBound
    } else if !retried {
        BindStep::RemoveAndRetry
    } else {
        BindStep::GiveUp
    }
}

/// A handler never queues a ping, and never answers anything but a ping.
pub proof fn lemma_ping_never_queued(bytes: Seq<u8>)
    ensures
        frame_action(bytes) != FrameAction::Enqueue(AppMessage::AppPing),
        forall|m: AppMessage| frame_action(bytes) == FrameAction::Reply(m) ==> m == AppMessage::AppPing,
{
}

/// The frame of a message is handled as that message: a ping is answered,
/// any other is queued.
pub proof fn lemma_frame_of_message_is_served(m: AppMessage)
    ensures
        frame_action(m.encode_spec()) == if m == AppMessage::AppPing {
            FrameAction::Reply(m)
        } else {
            FrameAction::Enqueue(m)
        },
{
    crate::message::lemma_round_trip(m);
}

/// Bytes of any length but the frame width, the empty read aside, are
/// dropped as `WrongSize`.
pub proof fn lemma_wrong_size_dropped(bytes: Seq<u8>)
    requires
        bytes.len() != 0,
        bytes.len() != FRAME_WIDTH,
    ensures
        frame_action(bytes) == FrameAction::Drop(FormatError::WrongSize),
{
}

/// The queue after a handler has dealt with `reads`, the bytes of one read
/// each, in their order.
pub open spec fn queue_after(waiting: Seq<AppMessage>, reads: Seq<Seq<u8>>) -> Seq<AppMessage>
    decreases reads.len(),
{
    if reads.len() == 0 {
        waiting
    } else {
        let queue = queue_after(waiting, reads.drop_last());
        match frame_action(reads.last()) {
            FrameAction::Enqueue(m) => queue.push(m),
            _ => queue,
        }
    }
}

/// The frames of `messages`, in their order.
pub open spec fn frames_of(messages: Seq<AppMessage>) -> Seq<Seq<u8>> {
    Seq::new(messages.len(), |i: int| messages[i].encode_spec())
}

/// Messages that a client encodes and a handler reads frame by frame
/// arrive in the queue unchanged, behind what waited there, in the order
/// in which they were sent; pings are answered and leave no trace.
pub proof fn lemma_delivery_in_order(waiting: Seq<AppMessage>, messages: Seq<AppMessage>)
    ensures
        queue_after(waiting, frames_of(messages)) == waiting + messages.filter(
            |m: AppMessage| m != AppMessage::AppPing,
        ),
    decreases messages.len(),
{
    let kept = |m: AppMessage| m != AppMessage::AppPing;
    reveal(Seq::filter);
    if messages.len() == 0 {
        assert(messages.filter(kept) =~= Seq::<AppMessage>::empty());
        assert(waiting + Seq::<AppMessage>::empty() =~= waiting);
    } else {
        let earlier = messages.drop_last();
        let last = messages.last();
        lemma_delivery_in_order(waiting, earlier);
        assert(frames_of(messages).drop_last() =~= frames_of(earlier));
        assert(frames_of(messages).last() == last.encode_spec());
        lemma_frame_of_message_is_served(last);
        if last != AppMessage::AppPing {
            assert((waiting + earlier.filter(kept)).push(last) =~= waiting + earlier.filter(
                kept,
            ).push(last));
        }
    }
}

} // verus!
