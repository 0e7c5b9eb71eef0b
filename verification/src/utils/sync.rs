use std::sync::Arc;
use tokio::sync::mpsc::Sender;
use tokio::sync::mpsc::UnboundedReceiver;
use tokio::sync::mpsc::UnboundedSender;
use tokio::sync::Mutex;
use vstd::prelude::*;

verus! {

/// tokio's unbounded sending half, carried through opaquely.
#[verifier::external_type_specification]
#[verifier::external_body]
#[verifier::reject_recursive_types(T)]
pub struct ExUnboundedSender<T>(UnboundedSender<T>);

/// tokio's unbounded receiving half, carried through opaquely.
#[verifier::external_type_specification]
#[verifier::external_body]
#[verifier::reject_recursive_types(T)]
pub struct ExUnboundedReceiver<T>(UnboundedReceiver<T>);

/// tokio's bounded sending half, carried through opaquely.
#[verifier::external_type_specification]
#[verifier::external_body]
#[verifier::reject_recursive_types(T)]
pub struct ExSender<T>(Sender<T>);

/// tokio's asynchronous mutex, carried through opaquely.
#[verifier::external_type_specification]
#[verifier::external_body]
#[verifier::reject_recursive_types(T)]
pub struct ExMutex<T: ?Sized>(Mutex<T>);

/// A value shared between tasks behind tokio's asynchronous mutex.
pub type ArcMut<T> = Arc<Mutex<T>>;

/// The sending half of an unbounded channel.
pub type Tx<T> = UnboundedSender<T>;

/// The receiving half of an unbounded channel.
pub type Rx<T> = UnboundedReceiver<T>;

/// Calls `tokio::sync::Mutex::new`, which wraps the value in an unlocked
/// mutex. A tokio mutex is opaque here, so nothing is stated of the result.
#[verifier::external_body]
fn mutex_new<T>(value: T) -> (m: Mutex<T>) {
    Mutex::new(value)
}

/// Calls `tokio::sync::mpsc::unbounded_channel`, which makes a fresh channel
/// and returns its two halves. The halves are opaque here, so nothing is
/// stated of them.
#[verifier::external_body]
pub(crate) fn unbounded_channel<T>() -> (r: (UnboundedSender<T>, UnboundedReceiver<T>)) {
    tokio::sync::mpsc::unbounded_channel()
}

/// Wraps a value in a mutex shared by reference counting.
pub fn new_arcmut<T>(value: T) -> (r: ArcMut<T>) {
    Arc::new(mutex_new(value))
}

} // verus!
