use vstd::prelude::*;

verus! {

#[verifier::external_type_specification]
#[verifier::external_body]
#[verifier::reject_recursive_types(T)]
pub struct ExSender<T>(flume::Sender<T>);

#[verifier::external_type_specification]
#[verifier::external_body]
#[verifier::reject_recursive_types(T)]
pub struct ExReceiver<T>(flume::Receiver<T>);

/// The task ids that wait in the channel from which `rx` receives, oldest first.
pub uninterp spec fn lane_items(rx: flume::Receiver<u64>) -> Seq<u64>;

/// Whether `tx` sends into the very channel from which `rx` receives.
pub uninterp spec fn lane_joined(tx: flume::Sender<u64>, rx: flume::Receiver<u64>) -> bool;

/// `flume::unbounded`: a new channel without a capacity limit. Its two ends
/// belong together and nothing waits in it.
#[verifier::external_body]
fn lane_open() -> (ends: (flume::Sender<u64>, flume::Receiver<u64>))
    ensures
        lane_joined(ends.0, ends.1),
        lane_items(ends.1) == Seq::<u64>::empty(),
{
    flume::unbounded::<u64>()
}

/// `flume::Sender::send` on an unbounded channel whose receiving end is at
/// hand, so that the channel cannot be disconnected: the message is appended
/// behind everything that waits, the call does not block, and it succeeds.
/// The receiving end is taken by `&mut` because what it will receive changes.
#[verifier::external_body]
fn lane_send(tx: &flume::Sender<u64>, rx: &mut flume::Receiver<u64>, id: u64) -> (sent: bool)
    requires
        lane_joined(*tx, *old(rx)),
    ensures
        sent,
        lane_joined(*tx, *final(rx)),
        lane_items(*final(rx)) == lane_items(*old(rx)).push(id),
{
    tx.send(id).is_ok()
}

/// `flume::Receiver::try_recv` on a channel whose sending end is at hand: it
/// never blocks, takes the oldest waiting message if there is one, and
/// reports an error, changing nothing, if the channel is empty.
#[verifier::external_body]
fn lane_try_recv(tx: &flume::Sender<u64>, rx: &mut flume::Receiver<u64>) -> (got: Option<u64>)
    requires
        lane_joined(*tx, *old(rx)),
    ensures
        lane_joined(*tx, *final(rx)),
        lane_items(*old(rx)).len() == 0 ==> got is None && lane_items(*final(rx)) == lane_items(
            *old(rx),
        ),
        lane_items(*old(rx)).len() > 0 ==> got == Some(lane_items(*old(rx))[0]) && lane_items(
            *final(rx),
        ) == lane_items(*old(rx)).drop_first(),
{
    rx.try_recv().ok()
}

/// `flume::Receiver::len`: the number of messages that wait in the channel.
#[verifier::external_body]
fn lane_len(rx: &flume::Receiver<u64>) -> (n: usize)
    ensures
        n == lane_items(*rx).len(),
{
    rx.len()
}

/// One priority class's queue of runnables, each named by its task id.
///
/// The lane owns both ends of an unbounded channel and never hands one out,
/// so what waits in it changes through `push` and `pop` only.
pub struct Lane {
    tx: flume::Sender<u64>,
    rx: flume::Receiver<u64>,
}

impl Lane {
    /// The two ends belong to one channel.
    pub closed spec fn wf(&self) -> bool {
        lane_joined(self.tx, self.rx)
    }

    /// The waiting task ids, oldest first.
    pub closed spec fn view(&self) -> Seq<u64> {
        lane_items(self.rx)
    }

    /// An empty lane.
    pub fn new() -> (lane: Lane)
        ensures
            lane.wf(),
            lane@ == Seq::<u64>::empty(),
    {
        let (tx, rx) = lane_open();
        Lane { tx, rx }
    }

    /// Queues `id` behind everything that waits.
    pub fn push(&mut self, id: u64)
        requires
            old(self).wf(),
        ensures
            final(self).wf(),
            final(self)@ == old(self)@.push(id),
    {
        let sent = lane_send(&self.tx, &mut self.rx, id);
        assert(sent);
    }

    /// Takes the oldest waiting id; `None`, and no change, on an empty lane.
    pub fn pop(&mut self) -> (got: Option<u64>)
        requires
            old(self).wf(),
        ensures
            final(self).wf(),
            old(self)@.len() == 0 ==> got is None && final(self)@ == old(self)@,
            old(self)@.len() > 0 ==> got == Some(old(self)@[0]) && final(self)@
                == old(self)@.drop_first(),
    {
        lane_try_recv(&self.tx, &mut self.rx)
    }

    /// The number of waiting ids.
    pub fn len(&self) -> (n: usize)
        ensures
            n == self@.len(),
    {
        lane_len(&self.rx)
    }
}

} // verus!
