//! The broadcast channel provider that the protocol client is built with:
//! every subscriber of a channel receives every value sent on it.

use vstd::prelude::*;
use broadcaster::BroadcastChannel;
use futures::channel::mpsc::{Receiver, Sender};

verus! {

/// A handle on a broadcast channel. Its contents are shared with every
/// other handle on the channel and change under them, so it is opaque to
/// the proofs.
#[verifier::external_body]
#[verifier::reject_recursive_types(T)]
pub struct ChannelHandle<T: 'static + Send + Clone>(pub BroadcastChannel<T, Sender<T>, Receiver<T>>);

/// The sending half handed to the client: a handle on a broadcast channel,
/// with the buffer that each subscriber of the channel has and a label that
/// names the channel. Only the two channel operations below make one.
#[verifier::reject_recursive_types(T)]
pub struct MySender<T: 'static + Send + Clone> {
    handle: ChannelHandle<T>,
    cap: Ghost<nat>,
    id: Ghost<int>,
}

/// The receiving half handed to the client: a handle on a broadcast
/// channel with a receiver of its own, with the channel's buffer and label.
#[verifier::reject_recursive_types(T)]
pub struct MyReceiver<T: 'static + Send + Clone> {
    handle: ChannelHandle<T>,
    cap: Ghost<nat>,
    id: Ghost<int>,
}

impl<T: 'static + Send + Clone> MySender<T> {
    /// How many values each subscriber of the channel buffers.
    pub closed spec fn buffer(&self) -> nat {
        self.cap@
    }

    /// The channel that this handle is on.
    pub closed spec fn channel_id(&self) -> int {
        self.id@
    }

    /// The handle itself.
    pub closed spec fn handle_spec(&self) -> ChannelHandle<T> {
        self.handle
    }

    /// The handle on the channel, to send through.
    pub fn handle(&self) -> (r: &ChannelHandle<T>)
        ensures
            *r == self.handle_spec(),
    {
        &self.handle
    }
}

impl<T: 'static + Send + Clone> MyReceiver<T> {
    /// How many values this receiver buffers.
    pub closed spec fn buffer(&self) -> nat {
        self.cap@
    }

    /// The channel that this receiver is on.
    pub closed spec fn channel_id(&self) -> int {
        self.id@
    }

    /// The handle itself.
    pub closed spec fn handle_spec(&self) -> ChannelHandle<T> {
        self.handle
    }

    /// The handle on the channel, to receive from. Receiving does not move
    /// the receiver to another channel.
    pub fn handle_mut(&mut self) -> (r: &mut ChannelHandle<T>)
        ensures
            *r == old(self).handle_spec(),
            final(self).handle_spec() == *final(r),
            final(self).buffer() == old(self).buffer(),
            final(self).channel_id() == old(self).channel_id(),
    {
        &mut self.handle
    }
}

/// `BroadcastChannel::with_cap`: a new broadcast channel whose subscribers
/// each receive through a bounded futures channel of buffer `cap`; the
/// constructor that makes those futures channels keeps `cap`, and every
/// clone reuses it. The buffer must be below `usize::MAX / 4`, else the
/// futures channel panics. Nothing is stated of the channel's label (it is
/// a new channel) nor of its contents, which other handles change.
#[verifier::external_body]
fn broadcast_with_cap<T: 'static + Send + Clone>(cap: usize) -> (r: MySender<T>)
    requires
        cap < usize::MAX / 4,
    ensures
        r.buffer() == cap,
{
    let ch = BroadcastChannel::with_cap(cap);
    MySender { handle: ChannelHandle(ch), cap: Ghost(cap as nat), id: Ghost(arbitrary()) }
}

/// `BroadcastChannel::clone`: a new handle on the same channel (it shares
/// the channel's senders), with a receiver of its own made by the same
/// constructor, so with the same buffer. Nothing is stated of the contents.
#[verifier::external_body]
fn broadcast_clone<T: 'static + Send + Clone>(ch: &MySender<T>) -> (r: MyReceiver<T>)
    ensures
        r.buffer() == ch.buffer(),
        r.channel_id() == ch.channel_id(),
{
    MyReceiver { handle: ChannelHandle(ch.handle.0.clone()), cap: Ghost(ch.cap@), id: Ghost(ch.id@) }
}

/// Makes the broadcast channels of the client.
pub struct MyChannelProvider;

impl MyChannelProvider {
    /// A new broadcast channel whose subscribers buffer `buff` values each,
    /// as a sender and a receiver that share it. The buffer must be below
    /// `usize::MAX / 4`.
    pub fn channel<T: 'static + Clone + Send + Sync>(buff: usize) -> (r: (MySender<T>, MyReceiver<T>))
        requires
            buff < usize::MAX / 4,
        ensures
            r.0.buffer() == buff,
            r.1.buffer() == buff,
            r.0.channel_id() == r.1.channel_id(),
    {
        let tx = broadcast_with_cap::<T>(buff);
        let rx = broadcast_clone(&tx);
        (tx, rx)
    }
}

impl<T: 'static + Send + Clone> MySender<T> {
    /// A new receiver on this sender's channel, with the channel's buffer.
    pub fn subscribe(&self) -> (r: MyReceiver<T>)
        ensures
            r.channel_id() == self.channel_id(),
            r.buffer() == self.buffer(),
    {
        broadcast_clone(self)
    }
}

/// What receiving answers, given what the channel yielded: the value, or
/// `Err(())` once the channel has ended.
pub fn recv_result<T>(next: Option<T>) -> (r: Result<T, ()>)
    ensures
        match next {
            Some(v) => r == Ok::<T, ()>(v),
            None => r == Err::<T, ()>(()),
        },
{
    match next {
        Some(v) => Ok(v),
        None => Err(()),
    }
}

/// What sending answers, given whether the channel took the value:
/// `Ok(0)` when it did, `Err(())` when it did not.
pub fn send_result<E>(sent: Result<(), E>) -> (r: Result<usize, ()>)
    ensures
        sent is Ok ==> r == Ok::<usize, ()>(0),
        sent is Err ==> r == Err::<usize, ()>(()),
{
    match sent {
        Ok(_) => Ok(0),
        Err(_) => Err(()),
    }
}

} // verus!
