use vstd::prelude::*;
use crossbeam::channel::{Receiver, SendError, Sender};
use crate::event::Message;

verus! {

#[verifier::external_type_specification]
#[verifier::external_body]
#[verifier::reject_recursive_types(T)]
pub struct ExReceiver<T>(Receiver<T>);

#[verifier::external_type_specification]
#[verifier::external_body]
#[verifier::reject_recursive_types(T)]
pub struct ExSender<T>(Sender<T>);

#[verifier::external_type_specification]
#[verifier::external_body]
#[verifier::reject_recursive_types(T)]
pub struct ExSendError<T>(SendError<T>);

/// Relies on crossbeam::channel::unbounded: a new channel without a
/// capacity bound, as its sending and its receiving end.
#[verifier::external_body]
pub(crate) fn open_channel() -> (Sender<Message>, Receiver<Message>) {
    crossbeam::channel::unbounded()
}

/// Relies on Sender's Clone: one more sending end of the same channel.
#[verifier::external_body]
pub(crate) fn another_sender(tx: &Sender<Message>) -> Sender<Message> {
    tx.clone()
}

/// Relies on Receiver::try_recv: a message that is already queued, taken
/// without waiting; `None` when nothing is queued or every sender is gone.
#[verifier::external_body]
pub(crate) fn take_pending(rx: &Receiver<Message>) -> Option<Message> {
    rx.try_recv().ok()
}

/// Relies on Sender::send: queues the message, or fails once the
/// receiving end has been dropped.
#[verifier::external_body]
pub(crate) fn publish(tx: &Sender<Message>, msg: Message) -> Result<(), SendError<Message>> {
    tx.send(msg)
}

/// Relies on rand::random: a `u64` drawn from the thread's generator.
#[verifier::external_body]
pub(crate) fn draw_u64() -> u64 {
    rand::random::<u64>()
}

} // verus!
