//! The bounded queues between the simulation tick and the tasks that own the
//! sockets: `futures::channel::mpsc`, with what this library relies on.

use crate::messages::{ServerMessage, ServerMessageView};
use futures::channel::mpsc::{Receiver, Sender, TryRecvError, TrySendError};
use vstd::prelude::*;

verus! {

/// `futures::channel::mpsc::Sender`, the sending half of a bounded queue.
#[verifier::external_type_specification]
#[verifier::external_body]
#[verifier::reject_recursive_types(T)]
pub struct ExSender<T>(Sender<T>);

/// `futures::channel::mpsc::Receiver`, the receiving half of a bounded queue.
#[verifier::external_type_specification]
#[verifier::external_body]
#[verifier::reject_recursive_types(T)]
pub struct ExReceiver<T>(Receiver<T>);

/// `futures::channel::mpsc::TrySendError`: why a queue took no message, with
/// the message that it did not take.
#[verifier::external_type_specification]
#[verifier::external_body]
#[verifier::reject_recursive_types(T)]
pub struct ExTrySendError<T>(TrySendError<T>);

/// `futures::channel::mpsc::TryRecvError`: why a queue gave no message.
#[verifier::external_type_specification]
#[verifier::external_body]
pub struct ExTryRecvError(TryRecvError);

/// The largest buffer that `futures::channel::mpsc::channel` accepts is one less than this.
pub open spec fn max_buffer() -> int {
    usize::MAX as int / 4
}

/// `futures::channel::mpsc::channel` makes a queue and hands out its two
/// halves. Trusted: it returns for every buffer size below a quarter of
/// `usize::MAX`, and panics on a larger one.
pub assume_specification<T>[ futures::channel::mpsc::channel::<T> ](buffer: usize) -> (halves: (
    Sender<T>,
    Receiver<T>,
))
    requires
        buffer < max_buffer(),
;

/// `TrySendError::is_full` tells a full queue from one whose receiver is
/// gone. Trusted: nothing but that it returns.
pub assume_specification<T>[ TrySendError::<T>::is_full ](error: &TrySendError<T>) -> (full: bool)
;

/// All the host messages that a sending half has ever put on its queue, oldest
/// first: a history, which does not shrink when the receiving half takes
/// messages off the queue.
pub uninterp spec fn accepted(sender: Sender<ServerMessage>) -> Seq<ServerMessageView>;

/// Calls `Sender::try_send`. Trusted: on `Ok` the message was put on the queue
/// behind those put there before; on `Err` the queue took nothing. Whether
/// there is room depends on the receiving task. The call panics only on a
/// queue that already holds `usize::MAX / 2` messages, or whose lock a
/// panicking task has poisoned.
#[verifier::external_body]
pub(crate) fn try_send(sender: &mut Sender<ServerMessage>, message: ServerMessage) -> (r: Result<
    (),
    TrySendError<ServerMessage>,
>)
    ensures
        r is Ok ==> accepted(*final(sender)) == accepted(*old(sender)).push(message@),
        r is Err ==> accepted(*final(sender)) == accepted(*old(sender)),
{
    sender.try_send(message)
}

/// All the host messages that a receiving half has ever taken off its queue,
/// oldest first: a history, which does not grow when a sending half puts
/// messages on the queue.
pub uninterp spec fn taken(receiver: Receiver<ServerMessage>) -> Seq<ServerMessageView>;

/// Calls `Receiver::try_recv`. Trusted: on `Ok` the message handed out was
/// taken off the queue, after those taken off before; on `Err` nothing was
/// taken off. Whether a message waits depends on the sending tasks.
#[verifier::external_body]
pub(crate) fn try_recv(receiver: &mut Receiver<ServerMessage>) -> (r: Result<
    ServerMessage,
    TryRecvError,
>)
    ensures
        r matches Ok(message) ==> taken(*final(receiver)) == taken(*old(receiver)).push(message@),
        r is Err ==> taken(*final(receiver)) == taken(*old(receiver)),
{
    receiver.try_recv()
}

} // verus!
