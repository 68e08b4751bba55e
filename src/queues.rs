//! Consumption queues: burst, last-value and wire-forwarding, and the
//! fan-out queue that feeds one producer's items to all of them.

use vstd::prelude::*;

use crate::wire::WireItem;
use crate::ChannelId;

verus! {

#[verifier::external_type_specification]
#[verifier::external_body]
#[verifier::reject_recursive_types(T)]
pub struct ExSender<T>(futures::channel::mpsc::Sender<T>);

#[verifier::external_type_specification]
#[verifier::external_body]
#[verifier::reject_recursive_types(T)]
pub struct ExReceiver<T>(futures::channel::mpsc::Receiver<T>);

/// Relies on `futures::channel::mpsc::channel`: a bounded channel with
/// `buffer` shared slots; it panics only for a buffer of `usize::MAX >> 2` or
/// more.
#[verifier::external_body]
pub(crate) fn bounded_channel(buffer: usize) -> (r: (
    futures::channel::mpsc::Sender<Vec<u8>>,
    futures::channel::mpsc::Receiver<Vec<u8>>,
))
    requires
        buffer < usize::MAX / 4,
{
    futures::channel::mpsc::channel(buffer)
}

/// Relies on `Sender::try_send`: hands `frame` to the channel without
/// waiting; whether it is taken depends on the receiver, so nothing is
/// promised of the result.
#[verifier::external_body]
fn try_send_frame(sender: &mut futures::channel::mpsc::Sender<Vec<u8>>, frame: Vec<u8>) -> (r: bool) {
    sender.try_send(frame).is_ok()
}

/// A sink that takes items as bytes and decodes them in its own item type.
pub trait ByteDeSerialiser {
    /// Every payload handed to this sink so far, in order.
    spec fn accepted(&self) -> Seq<Seq<u8>>;

    /// This sink is `before` after it took in payload `v`: what `v` decodes
    /// to has reached its contents.
    spec fn absorbed(&self, before: &Self, v: Seq<u8>) -> bool;

    /// Hands one payload to the sink, which decodes it into its contents.
    fn push_data(&mut self, v: &[u8])
        ensures
            final(self).accepted() == old(self).accepted().push(v@),
            final(self).absorbed(old(self), v@),
    ;
}

/// A queue whose consumer drains, at once, every item pushed since the last
/// drain, in push order.
pub struct BurstQueue<T> {
    values: Vec<T>,
    channel_id: ChannelId,
    payloads: Ghost<Seq<Seq<u8>>>,
}

impl<T> View for BurstQueue<T> {
    type V = Seq<T>;

    /// The items pushed since the last drain, oldest first.
    closed spec fn view(&self) -> Seq<T> {
        self.values@
    }
}

impl<T: Copy> BurstQueue<T> {
    /// The channel this queue belongs to.
    pub closed spec fn channel(&self) -> Seq<char> {
        self.channel_id@
    }

    /// An empty queue for `channel_id`.
    pub fn new(channel_id: ChannelId) -> (r: BurstQueue<T>)
        ensures
            r@ == Seq::<T>::empty(),
            r.channel() == channel_id@,
    {
        BurstQueue { values: Vec::new(), channel_id, payloads: Ghost(Seq::empty()) }
    }

    /// Adds `item` after the items already pending.
    pub fn push(&mut self, item: T)
        ensures
            final(self)@ == old(self)@.push(item),
            final(self).channel() == old(self).channel(),
    {
        self.values.push(item);
    }

    /// Whether a consume would return items now.
    pub fn is_ready(&self) -> (r: bool)
        ensures
            r == (self@.len() > 0),
    {
        self.values.len() > 0
    }

    /// Consumes the queue: every pending item in push order, which leaves it
    /// empty, or `None` ("not ready") where nothing is pending.
    pub fn poll(&mut self) -> (r: Option<Vec<T>>)
        ensures
            old(self)@.len() == 0 ==> r is None && final(self)@ == old(self)@,
            old(self)@.len() > 0 ==> (r matches Some(batch) && batch@ == old(self)@),
            old(self)@.len() > 0 ==> final(self)@ == Seq::<T>::empty(),
            final(self).channel() == old(self).channel(),
    {
        if self.values.len() == 0 {
            None
        } else {
            let mut batch: Vec<T> = Vec::new();
            std::mem::swap(&mut batch, &mut self.values);
            Some(batch)
        }
    }
}

impl<T: WireItem> BurstQueue<T> {
    /// Decodes one item from `data` and pushes it; bytes that decode to no
    /// item leave the queue as it was.
    pub fn push_bytes(&mut self, data: &[u8])
        ensures
            final(self)@ == match T::read_wire(data@) {
                Some(v) => old(self)@.push(v),
                None => old(self)@,
            },
            forall|v: T| data@ == T::wire_of(v) ==> final(self)@ == old(self)@.push(v),
            final(self).channel() == old(self).channel(),
    {
        proof {
            assert forall|v: T| data@ == T::wire_of(v) implies T::read_wire(data@) == Some(v) by {
                T::lemma_wire_round_trip(v);
            }
        }
        match T::from_wire(data) {
            Some(v) => self.push(v),
            None => {},
        }
    }
}

impl<T: WireItem> ByteDeSerialiser for BurstQueue<T> {
    closed spec fn accepted(&self) -> Seq<Seq<u8>> {
        self.payloads@
    }

    open spec fn absorbed(&self, before: &Self, v: Seq<u8>) -> bool {
        &&& self@ == match T::read_wire(v) {
            Some(x) => before@.push(x),
            None => before@,
        }
        &&& self.channel() == before.channel()
    }

    fn push_data(&mut self, v: &[u8]) {
        self.payloads = Ghost(self.payloads@.push(v@));
        if let Some(item) = T::from_wire(v) {
            self.values.push(item);
        }
    }
}

/// A queue that keeps only the latest unread item.
pub struct LastValueQueue<T> {
    value: Option<T>,
    channel_id: ChannelId,
    payloads: Ghost<Seq<Seq<u8>>>,
}

impl<T> View for LastValueQueue<T> {
    type V = Option<T>;

    /// The unread item, if any.
    closed spec fn view(&self) -> Option<T> {
        self.value
    }
}

impl<T: Copy> LastValueQueue<T> {
    /// The channel this queue belongs to.
    pub closed spec fn channel(&self) -> Seq<char> {
        self.channel_id@
    }

    /// An empty queue for `channel_id`.
    pub fn new(channel_id: ChannelId) -> (r: LastValueQueue<T>)
        ensures
            r@ is None,
            r.channel() == channel_id@,
    {
        LastValueQueue { value: None, channel_id, payloads: Ghost(Seq::empty()) }
    }

    /// Stores `item` in place of any unread item.
    pub fn push(&mut self, item: T)
        ensures
            final(self)@ == Some(item),
            final(self).channel() == old(self).channel(),
    {
        self.value = Some(item);
    }

    /// Whether a consume would return an item now.
    pub fn is_ready(&self) -> (r: bool)
        ensures
            r == self@ is Some,
    {
        self.value.is_some()
    }

    /// Consumes the queue: the unread item, which leaves it empty, or `None`
    /// ("not ready") where there is none.
    pub fn poll(&mut self) -> (r: Option<T>)
        ensures
            r == old(self)@,
            final(self)@ is None,
            final(self).channel() == old(self).channel(),
    {
        let r = self.value;
        self.value = None;
        r
    }
}

impl<T: WireItem> LastValueQueue<T> {
    /// Decodes one item from `data` and stores it; bytes that decode to no
    /// item leave the queue as it was.
    pub fn push_bytes(&mut self, data: &[u8])
        ensures
            final(self)@ == match T::read_wire(data@) {
                Some(v) => Some(v),
                None => old(self)@,
            },
            forall|v: T| data@ == T::wire_of(v) ==> final(self)@ == Some(v),
            final(self).channel() == old(self).channel(),
    {
        proof {
            assert forall|v: T| data@ == T::wire_of(v) implies T::read_wire(data@) == Some(v) by {
                T::lemma_wire_round_trip(v);
            }
        }
        match T::from_wire(data) {
            Some(v) => self.push(v),
            None => {},
        }
    }
}

impl<T: WireItem> ByteDeSerialiser for LastValueQueue<T> {
    closed spec fn accepted(&self) -> Seq<Seq<u8>> {
        self.payloads@
    }

    open spec fn absorbed(&self, before: &Self, v: Seq<u8>) -> bool {
        &&& self@ == match T::read_wire(v) {
            Some(x) => Some(x),
            None => before@,
        }
        &&& self.channel() == before.channel()
    }

    fn push_data(&mut self, v: &[u8]) {
        self.payloads = Ghost(self.payloads@.push(v@));
        if let Some(item) = T::from_wire(v) {
            self.value = Some(item);
        }
    }
}

/// A queue that forwards each pushed item, encoded, to a bounded outbound
/// channel feeding a remote peer. It buffers nothing itself.
pub struct TcpScalarQueue<T> {
    sender: futures::channel::mpsc::Sender<Vec<u8>>,
    channel_id: ChannelId,
    frames: Ghost<Seq<Seq<u8>>>,
    item_type: core::marker::PhantomData<T>,
}

impl<T: WireItem> TcpScalarQueue<T> {
    /// The frames offered to the outbound channel so far, in order, whether
    /// or not the channel took them.
    pub closed spec fn handed(&self) -> Seq<Seq<u8>> {
        self.frames@
    }

    /// The channel this queue belongs to.
    pub closed spec fn channel(&self) -> Seq<char> {
        self.channel_id@
    }

    /// A queue for `channel_id` that hands its frames to `sender`.
    pub fn new(channel_id: ChannelId, sender: futures::channel::mpsc::Sender<Vec<u8>>) -> (r:
        TcpScalarQueue<T>)
        ensures
            r.handed() == Seq::<Seq<u8>>::empty(),
            r.channel() == channel_id@,
    {
        TcpScalarQueue { sender, channel_id, frames: Ghost(Seq::empty()), item_type: core::marker::PhantomData }
    }

    /// Encodes `item` and offers it to the outbound channel without waiting.
    /// Returns whether the channel took it: a full or closed channel refuses
    /// the item rather than stalling the producer.
    pub fn push(&mut self, item: T) -> (r: bool)
        ensures
            final(self).handed() == old(self).handed().push(T::wire_of(item)),
            final(self).channel() == old(self).channel(),
    {
        let bytes = item.to_wire();
        self.frames = Ghost(self.frames@.push(bytes@));
        try_send_frame(&mut self.sender, bytes)
    }
}

/// The consumers fed by one producer: a push reaches every one of them, each
/// with its own copy of the item.
pub struct OutputQueue<T> {
    last_value_consumers: Vec<LastValueQueue<T>>,
    burst_consumers: Vec<BurstQueue<T>>,
    tcp_consumer: Vec<TcpScalarQueue<T>>,
}

impl<T: WireItem> OutputQueue<T> {
    /// What each burst consumer holds, in the order they were added.
    pub closed spec fn bursts(&self) -> Seq<Seq<T>> {
        self.burst_consumers@.map_values(|q: BurstQueue<T>| q@)
    }

    /// What each last-value consumer holds, in the order they were added.
    pub closed spec fn lasts(&self) -> Seq<Option<T>> {
        self.last_value_consumers@.map_values(|q: LastValueQueue<T>| q@)
    }

    /// The frames handed on by each wire-forwarding consumer.
    pub closed spec fn wire_frames(&self) -> Seq<Seq<Seq<u8>>> {
        self.tcp_consumer@.map_values(|q: TcpScalarQueue<T>| q.handed())
    }

    /// A producer with no consumers.
    pub fn new() -> (r: OutputQueue<T>)
        ensures
            r.bursts() == Seq::<Seq<T>>::empty(),
            r.lasts() == Seq::<Option<T>>::empty(),
            r.wire_frames() == Seq::<Seq<Seq<u8>>>::empty(),
    {
        let r = OutputQueue {
            last_value_consumers: Vec::new(),
            burst_consumers: Vec::new(),
            tcp_consumer: Vec::new(),
        };
        assert(r.bursts() =~= Seq::<Seq<T>>::empty());
        assert(r.lasts() =~= Seq::<Option<T>>::empty());
        assert(r.wire_frames() =~= Seq::<Seq<Seq<u8>>>::empty());
        r
    }

    /// Adds an empty last-value consumer for `channel_id`; the result is its
    /// handle for `poll_last_value`.
    pub fn lv_pull_queue(&mut self, channel_id: ChannelId) -> (h: usize)
        requires
            old(self).lasts().len() < usize::MAX,
        ensures
            h == old(self).lasts().len(),
            final(self).lasts() == old(self).lasts().push(None),
            final(self).bursts() == old(self).bursts(),
            final(self).wire_frames() == old(self).wire_frames(),
    {
        let h = self.last_value_consumers.len();
        self.last_value_consumers.push(LastValueQueue::new(channel_id));
        assert(self.lasts() =~= old(self).lasts().push(None));
        h
    }

    /// Adds an empty burst consumer for `channel_id`; the result is its
    /// handle for `poll_burst`.
    pub fn burst_pull_queue(&mut self, channel_id: ChannelId) -> (h: usize)
        requires
            old(self).bursts().len() < usize::MAX,
        ensures
            h == old(self).bursts().len(),
            final(self).bursts() == old(self).bursts().push(Seq::<T>::empty()),
            final(self).lasts() == old(self).lasts(),
            final(self).wire_frames() == old(self).wire_frames(),
    {
        let h = self.burst_consumers.len();
        self.burst_consumers.push(BurstQueue::new(channel_id));
        assert(self.bursts() =~= old(self).bursts().push(Seq::<T>::empty()));
        h
    }

    /// Adds a wire-forwarding consumer for `channel_id` that hands its frames
    /// to `sender`.
    pub(crate) fn tcp_sink(&mut self, channel_id: ChannelId, sender: futures::channel::mpsc::Sender<Vec<u8>>)
        ensures
            final(self).wire_frames() == old(self).wire_frames().push(Seq::<Seq<u8>>::empty()),
            final(self).bursts() == old(self).bursts(),
            final(self).lasts() == old(self).lasts(),
    {
        self.tcp_consumer.push(TcpScalarQueue::new(channel_id, sender));
        assert(self.wire_frames() =~= old(self).wire_frames().push(Seq::<Seq<u8>>::empty()));
    }

    /// Fans `item` out: every burst consumer gets it after its pending
    /// items, every last-value consumer holds it as its latest, and every
    /// wire-forwarding consumer hands on its encoding. A refusing outbound
    /// channel holds up none of the others.
    pub fn send(&mut self, item: T)
        ensures
            final(self).bursts().len() == old(self).bursts().len(),
            forall|i: int|
                0 <= i < old(self).bursts().len() ==> #[trigger] final(self).bursts()[i] == old(self).bursts()[i].push(item),
            final(self).lasts().len() == old(self).lasts().len(),
            forall|i: int| 0 <= i < old(self).lasts().len() ==> #[trigger] final(self).lasts()[i] == Some(item),
            final(self).wire_frames().len() == old(self).wire_frames().len(),
            forall|i: int|
                0 <= i < old(self).wire_frames().len() ==> #[trigger] final(self).wire_frames()[i]
                    == old(self).wire_frames()[i].push(T::wire_of(item)),
    {
        let mut i: usize = 0;
        while i < self.last_value_consumers.len()
            invariant
                0 <= i <= self.last_value_consumers@.len(),
                self.last_value_consumers@.len() == old(self).last_value_consumers@.len(),
                self.burst_consumers == old(self).burst_consumers,
                self.tcp_consumer == old(self).tcp_consumer,
                forall|j: int| 0 <= j < i ==> #[trigger] self.last_value_consumers@[j]@ == Some(item),
            decreases self.last_value_consumers@.len() - i,
        {
            self.last_value_consumers[i].push(item);
            i = i + 1;
        }
        let mut i: usize = 0;
        while i < self.burst_consumers.len()
            invariant
                0 <= i <= self.burst_consumers@.len(),
                self.burst_consumers@.len() == old(self).burst_consumers@.len(),
                self.last_value_consumers@.len() == old(self).last_value_consumers@.len(),
                forall|j: int| 0 <= j < self.last_value_consumers@.len() ==> #[trigger] self.last_value_consumers@[j]@ == Some(item),
                self.tcp_consumer == old(self).tcp_consumer,
                forall|j: int| 0 <= j < i ==> #[trigger] self.burst_consumers@[j]@ == old(self).burst_consumers@[j]@.push(item),
                forall|j: int| i <= j < self.burst_consumers@.len() ==> #[trigger] self.burst_consumers@[j]@ == old(self).burst_consumers@[j]@,
            decreases self.burst_consumers@.len() - i,
        {
            self.burst_consumers[i].push(item);
            i = i + 1;
        }
        let mut i: usize = 0;
        while i < self.tcp_consumer.len()
            invariant
                0 <= i <= self.tcp_consumer@.len(),
                self.tcp_consumer@.len() == old(self).tcp_consumer@.len(),
                self.burst_consumers@.len() == old(self).burst_consumers@.len(),
                self.last_value_consumers@.len() == old(self).last_value_consumers@.len(),
                forall|j: int| 0 <= j < self.last_value_consumers@.len() ==> #[trigger] self.last_value_consumers@[j]@ == Some(item),
                forall|j: int| 0 <= j < self.burst_consumers@.len() ==> #[trigger] self.burst_consumers@[j]@ == old(self).burst_consumers@[j]@.push(item),
                forall|j: int| 0 <= j < i ==> #[trigger] self.tcp_consumer@[j].handed() == old(self).tcp_consumer@[j].handed().push(T::wire_of(item)),
                forall|j: int| i <= j < self.tcp_consumer@.len() ==> #[trigger] self.tcp_consumer@[j].handed() == old(self).tcp_consumer@[j].handed(),
            decreases self.tcp_consumer@.len() - i,
        {
            let _taken = self.tcp_consumer[i].push(item);
            i = i + 1;
        }
    }

    /// Consumes burst consumer `h`: its pending items in push order, or
    /// `None` where it has none or no such consumer exists. No other consumer
    /// changes.
    pub fn poll_burst(&mut self, h: usize) -> (r: Option<Vec<T>>)
        ensures
            final(self).lasts() == old(self).lasts(),
            final(self).wire_frames() == old(self).wire_frames(),
            h >= old(self).bursts().len() || old(self).bursts()[h as int].len() == 0 ==> r is None
                && final(self).bursts() == old(self).bursts(),
            h < old(self).bursts().len() && old(self).bursts()[h as int].len() > 0 ==> (r matches Some(
                batch,
            ) && batch@ == old(self).bursts()[h as int]),
            h < old(self).bursts().len() && old(self).bursts()[h as int].len() > 0 ==> final(self).bursts() == old(self).bursts().update(h as int, Seq::<T>::empty()),
    {
        if h >= self.burst_consumers.len() {
            return None;
        }
        let r = self.burst_consumers[h].poll();
        proof {
            if old(self).bursts()[h as int].len() == 0 {
                assert(self.bursts() =~= old(self).bursts());
            } else {
                assert(self.bursts() =~= old(self).bursts().update(h as int, Seq::<T>::empty()));
            }
        }
        r
    }

    /// Consumes last-value consumer `h`: its unread item, or `None` where it
    /// has none or no such consumer exists. No other consumer changes.
    pub fn poll_last_value(&mut self, h: usize) -> (r: Option<T>)
        ensures
            final(self).bursts() == old(self).bursts(),
            final(self).wire_frames() == old(self).wire_frames(),
            h >= old(self).lasts().len() ==> r is None && final(self).lasts() == old(self).lasts(),
            h < old(self).lasts().len() ==> r == old(self).lasts()[h as int] && final(self).lasts()
                == old(self).lasts().update(h as int, None),
    {
        if h >= self.last_value_consumers.len() {
            return None;
        }
        let r = self.last_value_consumers[h].poll();
        assert(self.lasts() =~= old(self).lasts().update(h as int, None));
        r
    }
}

/// One call on an `OutputQueue` with one burst and one last-value consumer:
/// `send`, `poll_burst` on the burst consumer, or `poll_last_value` on the
/// last-value consumer.
pub enum FanOutCall<T> {
    Send(T),
    DrainBurst,
    TakeLast,
}

/// The items sent by `calls`, in order.
pub open spec fn sent_items<T>(calls: Seq<FanOutCall<T>>) -> Seq<T>
    decreases calls.len(),
{
    if calls.len() == 0 {
        Seq::empty()
    } else {
        match calls.last() {
            FanOutCall::Send(v) => sent_items(calls.drop_last()).push(v),
            _ => sent_items(calls.drop_last()),
        }
    }
}

/// What the burst consumer holds after `calls`, as `send` and `poll_burst`
/// state it: a send appends, a drain empties.
pub open spec fn burst_pending<T>(calls: Seq<FanOutCall<T>>) -> Seq<T>
    decreases calls.len(),
{
    if calls.len() == 0 {
        Seq::empty()
    } else {
        match calls.last() {
            FanOutCall::Send(v) => burst_pending(calls.drop_last()).push(v),
            FanOutCall::DrainBurst => Seq::empty(),
            FanOutCall::TakeLast => burst_pending(calls.drop_last()),
        }
    }
}

/// Every item that the drains among `calls` returned, one drain after the
/// other; a drain of an empty consumer returns nothing.
pub open spec fn burst_drained<T>(calls: Seq<FanOutCall<T>>) -> Seq<T>
    decreases calls.len(),
{
    if calls.len() == 0 {
        Seq::empty()
    } else {
        match calls.last() {
            FanOutCall::DrainBurst => burst_drained(calls.drop_last()) + burst_pending(calls.drop_last()),
            _ => burst_drained(calls.drop_last()),
        }
    }
}

/// What the last-value consumer holds after `calls`, as `send` and
/// `poll_last_value` state it.
pub open spec fn last_pending<T>(calls: Seq<FanOutCall<T>>) -> Option<T>
    decreases calls.len(),
{
    if calls.len() == 0 {
        None
    } else {
        match calls.last() {
            FanOutCall::Send(v) => Some(v),
            FanOutCall::TakeLast => None,
            FanOutCall::DrainBurst => last_pending(calls.drop_last()),
        }
    }
}

/// Whatever the interleaving of sends and consumes, the burst consumer's
/// drains, followed by what it still holds, are exactly the sent items in
/// order.
pub proof fn fan_out_burst_gets_every_item<T>(calls: Seq<FanOutCall<T>>)
    ensures
        burst_drained(calls) + burst_pending(calls) == sent_items(calls),
    decreases calls.len(),
{
    if calls.len() > 0 {
        fan_out_burst_gets_every_item(calls.drop_last());
        match calls.last() {
            FanOutCall::Send(v) => {
                assert(burst_drained(calls) + burst_pending(calls) =~= (burst_drained(calls.drop_last())
                    + burst_pending(calls.drop_last())).push(v));
            },
            FanOutCall::DrainBurst => {
                assert(burst_drained(calls) + burst_pending(calls) =~= burst_drained(calls.drop_last())
                    + burst_pending(calls.drop_last()));
            },
            FanOutCall::TakeLast => {},
        }
    }
}

/// After a send, the last-value consumer holds the sent item however often
/// the burst consumer is drained afterwards.
pub proof fn fan_out_last_value_ignores_drains<T>(calls: Seq<FanOutCall<T>>, v: T, drains: nat)
    ensures
        last_pending(calls.push(FanOutCall::Send(v)) + Seq::new(drains, |i: int| FanOutCall::<T>::DrainBurst))
            == Some(v),
    decreases drains,
{
    let all = calls.push(FanOutCall::Send(v)) + Seq::new(drains, |i: int| FanOutCall::<T>::DrainBurst);
    if drains > 0 {
        fan_out_last_value_ignores_drains(calls, v, (drains - 1) as nat);
        assert(all.drop_last() =~= calls.push(FanOutCall::Send(v)) + Seq::new(
            (drains - 1) as nat,
            |i: int| FanOutCall::<T>::DrainBurst,
        ));
    } else {
        assert(all =~= calls.push(FanOutCall::Send(v)));
    }
}

/// Each call changes the model as the contracts of `OutputQueue` change the
/// consumers: `send` appends `v` to the burst consumer and makes it the last
/// value; `poll_burst` returns what the burst consumer holds and empties it;
/// `poll_last_value` empties the last-value consumer and leaves the burst one.
pub proof fn fan_out_calls_match_contracts<T>(calls: Seq<FanOutCall<T>>, v: T)
    ensures
        burst_pending(calls.push(FanOutCall::Send(v))) == burst_pending(calls).push(v),
        last_pending(calls.push(FanOutCall::Send(v))) == Some(v),
        burst_pending(calls.push(FanOutCall::DrainBurst)) == Seq::<T>::empty(),
        burst_drained(calls.push(FanOutCall::DrainBurst)) == burst_drained(calls) + burst_pending(calls),
        last_pending(calls.push(FanOutCall::DrainBurst)) == last_pending(calls),
        last_pending(calls.push(FanOutCall::<T>::TakeLast)) == None::<T>,
        burst_pending(calls.push(FanOutCall::<T>::TakeLast)) == burst_pending(calls),
{
    assert(calls.push(FanOutCall::Send(v)).drop_last() =~= calls);
    assert(calls.push(FanOutCall::<T>::DrainBurst).drop_last() =~= calls);
    assert(calls.push(FanOutCall::<T>::TakeLast).drop_last() =~= calls);
}

} // verus!
