use vstd::prelude::*;

verus! {

#[verifier::external_type_specification]
#[verifier::external_body]
#[verifier::reject_recursive_types(T)]
pub struct ExOneshotSender<T>(tokio::sync::oneshot::Sender<T>);

#[verifier::external_type_specification]
#[verifier::external_body]
#[verifier::reject_recursive_types(T)]
pub struct ExOneshotReceiver<T>(tokio::sync::oneshot::Receiver<T>);

// Declared although no signature of this crate carries it: the receiver's
// `Future` impl mentions it, and the receiver cannot be declared without it.
#[verifier::external_type_specification]
#[verifier::external_body]
pub struct ExRecvError(tokio::sync::oneshot::error::RecvError);

#[verifier::external_type_specification]
#[verifier::external_body]
#[verifier::reject_recursive_types(T)]
pub struct ExMpscSender<T>(tokio::sync::mpsc::Sender<T>);

#[verifier::external_type_specification]
#[verifier::external_body]
#[verifier::reject_recursive_types(T)]
pub struct ExMpscReceiver<T>(tokio::sync::mpsc::Receiver<T>);

/// Relies on tokio::sync::oneshot::channel: a fresh, connected one-shot
/// pair used as a health-check task's cancellation channel.
#[verifier::external_body]
pub fn oneshot_pair() -> (tokio::sync::oneshot::Sender<()>, tokio::sync::oneshot::Receiver<()>) {
    tokio::sync::oneshot::channel()
}

/// Relies on tokio::sync::mpsc::channel: a fresh, connected pair with room
/// for one message, used as a listener's stop channel.
#[verifier::external_body]
pub fn control_channel() -> (tokio::sync::mpsc::Sender<()>, tokio::sync::mpsc::Receiver<()>) {
    tokio::sync::mpsc::channel(1)
}

/// Relies on tokio::sync::mpsc::Sender::try_send: hands a stop signal to the
/// listener if the channel has room; whether the peer is still listening is
/// not relied on.
#[verifier::external_body]
pub fn signal_stop(s: &tokio::sync::mpsc::Sender<()>) {
    let _ = s.try_send(());
}

/// Relies on tokio::sync::oneshot::Receiver::try_recv: `true` when the
/// cancellation signal was sent or its sender was dropped, `false` only
/// while the channel is still open and empty.  Nothing is assumed of the
/// outcome: it depends on what the other side has done.
#[verifier::external_body]
pub fn cancel_requested(r: &mut tokio::sync::oneshot::Receiver<()>) -> bool {
    match r.try_recv() {
        Err(tokio::sync::oneshot::error::TryRecvError::Empty) => false,
        _ => true,
    }
}

} // verus!
