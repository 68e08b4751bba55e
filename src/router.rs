//! The channel router: inbound data frames go, by channel id, to every sink
//! registered for that channel; outbound channels get wire-forwarding
//! consumers.

use vstd::prelude::*;

use crate::message::{DiscoveryMessage, DiscoveryState};
use crate::queues::{bounded_channel, ByteDeSerialiser, OutputQueue};
use crate::wire::WireItem;
use crate::ChannelId;

verus! {

/// Slots of the outbound channel that feeds one wire-forwarding consumer.
pub const OUTBOUND_BUFFER: usize = 10;

struct SinkEntry<S> {
    id: ChannelId,
    sinks: Vec<S>,
}

/// Routes inbound frames, by channel id, to the sinks registered for them,
/// and attaches wire-forwarding consumers to outbound channels.
pub struct TcpQueueManager<S> {
    port: u16,
    input_queue_map: Vec<SinkEntry<S>>,
}

impl<S: ByteDeSerialiser> TcpQueueManager<S> {
    /// The port that the data-plane listener binds.
    pub closed spec fn listen_port(&self) -> u16 {
        self.port
    }

    /// The channels with registered sinks, in the order of registration.
    pub closed spec fn channels(&self) -> Seq<Seq<char>> {
        self.input_queue_map@.map_values(|e: SinkEntry<S>| e.id@)
    }

    /// The sinks of each channel of `channels()`, in the order they were added.
    pub closed spec fn sinks(&self) -> Seq<Seq<S>> {
        self.input_queue_map@.map_values(|e: SinkEntry<S>| e.sinks@)
    }

    /// No channel is listed twice.
    pub open spec fn wf(&self) -> bool {
        &&& self.channels().len() == self.sinks().len()
        &&& forall|i: int, j: int|
            0 <= i < self.channels().len() && 0 <= j < self.channels().len() && i != j
                ==> self.channels()[i] != self.channels()[j]
    }

    /// A router for a listener on `port`, with no sinks.
    pub fn new_listener(port: u16) -> (r: TcpQueueManager<S>)
        ensures
            r.wf(),
            r.listen_port() == port,
            r.channels() == Seq::<Seq<char>>::empty(),
            r.sinks() == Seq::<Seq<S>>::empty(),
    {
        let r = TcpQueueManager { port, input_queue_map: Vec::new() };
        assert(r.channels() =~= Seq::<Seq<char>>::empty());
        assert(r.sinks() =~= Seq::<Seq<S>>::empty());
        r
    }

    /// The port that the data-plane listener binds.
    pub fn port(&self) -> (r: u16)
        ensures
            r == self.listen_port(),
    {
        self.port
    }

    /// Sets the listener's port, after an update from discovery.
    pub fn update_port(&mut self, port: u16)
        ensures
            final(self).listen_port() == port,
            final(self).channels() == old(self).channels(),
            final(self).sinks() == old(self).sinks(),
    {
        self.port = port;
    }

    /// Where `id` is registered, if it is.
    fn find(&self, id: &ChannelId) -> (r: Option<usize>)
        ensures
            r matches Some(i) ==> i < self.channels().len() && self.channels()[i as int] == id@,
            r is None ==> forall|i: int| 0 <= i < self.channels().len() ==> self.channels()[i] != id@,
    {
        let mut i: usize = 0;
        while i < self.input_queue_map.len()
            invariant
                0 <= i <= self.input_queue_map@.len(),
                forall|j: int| 0 <= j < i ==> self.channels()[j] != id@,
            decreases self.input_queue_map@.len() - i,
        {
            if self.input_queue_map[i].id == *id {
                return Some(i);
            }
            i = i + 1;
        }
        None
    }

    /// The sinks registered for channel `id`, if it has any.
    pub fn input_sinks(&self, id: &ChannelId) -> (r: Option<&Vec<S>>)
        ensures
            !self.channels().contains(id@) ==> r is None,
            self.wf() && self.channels().contains(id@) ==> (r matches Some(v) && v@ == self.sinks()[self.channels().index_of(id@)]),
    {
        match self.find(id) {
            Some(i) => {
                proof {
                    if self.wf() {
                        self.channels().index_of_first_ensures(id@);
                    }
                }
                Some(&self.input_queue_map[i].sinks)
            },
            None => None,
        }
    }

    /// Registers `sink` for inbound frames of channel `id`, after any sinks
    /// already registered for it.
    pub fn add_input(&mut self, id: ChannelId, sink: S)
        requires
            old(self).wf(),
        ensures
            final(self).wf(),
            final(self).listen_port() == old(self).listen_port(),
            old(self).channels().contains(id@) ==> {
                let i = old(self).channels().index_of(id@);
                &&& final(self).channels() == old(self).channels()
                &&& final(self).sinks() == old(self).sinks().update(i, old(self).sinks()[i].push(sink))
            },
            !old(self).channels().contains(id@) ==> {
                &&& final(self).channels() == old(self).channels().push(id@)
                &&& final(self).sinks() == old(self).sinks().push(seq![sink])
            },
    {
        match self.find(&id) {
            Some(i) => {
                proof {
                    assert(old(self).channels().contains(id@));
                    old(self).channels().index_of_first_ensures(id@);
                    assert(old(self).channels().index_of(id@) == i);
                }
                self.input_queue_map[i].sinks.push(sink);
                assert(self.channels() =~= old(self).channels());
                assert(self.sinks() =~= old(self).sinks().update(i as int, old(self).sinks()[i as int].push(sink)));
            },
            None => {
                let mut sinks = Vec::new();
                sinks.push(sink);
                self.input_queue_map.push(SinkEntry { id, sinks });
                assert(self.channels() =~= old(self).channels().push(id@));
                assert(self.sinks() =~= old(self).sinks().push(seq![sink]));
            },
        }
    }

    /// Adopts the port of a `Connect` message, where the message carries a
    /// nonzero port and no port is configured yet (zero); any other message
    /// leaves the router as it was.
    pub fn update_channel_info(&mut self, msg: &DiscoveryMessage)
        ensures
            final(self).listen_port() == (match msg.uri.port {
                Some(p) => if msg.state == DiscoveryState::Connect && p != 0 && old(self).listen_port()
                    == 0 {
                    p
                } else {
                    old(self).listen_port()
                },
                None => old(self).listen_port(),
            }),
            final(self).channels() == old(self).channels(),
            final(self).sinks() == old(self).sinks(),
    {
        match msg.state {
            DiscoveryState::Connect => {
                if let Some(p) = msg.uri.port {
                    if p != 0 && self.port == 0 {
                        self.port = p;
                    }
                }
            },
            DiscoveryState::ConnectResponse => {},
            DiscoveryState::QueueData => {},
            DiscoveryState::Error => {},
        }
    }

    /// Attaches to `output_q` a wire-forwarding consumer for channel `id`
    /// and returns the receiving end of its bounded outbound channel.
    pub fn add_output<T: WireItem>(&mut self, id: ChannelId, output_q: &mut OutputQueue<T>) -> (r:
        futures::channel::mpsc::Receiver<Vec<u8>>)
        ensures
            final(output_q).wire_frames() == old(output_q).wire_frames().push(Seq::<Seq<u8>>::empty()),
            final(output_q).bursts() == old(output_q).bursts(),
            final(output_q).lasts() == old(output_q).lasts(),
            final(self).listen_port() == old(self).listen_port(),
            final(self).channels() == old(self).channels(),
            final(self).sinks() == old(self).sinks(),
    {
        let (sender, receiver) = bounded_channel(OUTBOUND_BUFFER);
        output_q.tcp_sink(id, sender);
        receiver
    }

    /// Hands the payload of an inbound frame for `channel` to every sink
    /// registered for it, in the order they were registered, and returns
    /// whether any channel matched. A frame
    /// for an unregistered channel is dropped and changes nothing.
    pub fn dispatch(&mut self, channel: &ChannelId, payload: &[u8]) -> (r: bool)
        requires
            old(self).wf(),
        ensures
            final(self).wf(),
            r == old(self).channels().contains(channel@),
            final(self).listen_port() == old(self).listen_port(),
            final(self).channels() == old(self).channels(),
            final(self).sinks().len() == old(self).sinks().len(),
            forall|j: int|
                0 <= j < old(self).sinks().len() && old(self).channels()[j] != channel@
                    ==> #[trigger] final(self).sinks()[j] == old(self).sinks()[j],
            forall|j: int|
                0 <= j < old(self).sinks().len() && old(self).channels()[j] == channel@ ==> {
                    &&& #[trigger] final(self).sinks()[j].len() == old(self).sinks()[j].len()
                    &&& forall|k: int|
                        0 <= k < old(self).sinks()[j].len() ==> #[trigger] final(self).sinks()[j][k].accepted()
                            == old(self).sinks()[j][k].accepted().push(payload@)
                    &&& forall|k: int|
                        0 <= k < old(self).sinks()[j].len() ==> #[trigger] final(self).sinks()[j][k].absorbed(
                            &old(self).sinks()[j][k],
                            payload@,
                        )
                },
    {
        match self.find(channel) {
            None => {
                proof {
                    if old(self).channels().contains(channel@) {
                        let i = old(self).channels().index_of(channel@);
                        old(self).channels().index_of_first_ensures(channel@);
                    }
                }
                false
            },
            Some(i) => {
                let ghost before = self.input_queue_map@[i as int].sinks@;
                let mut k: usize = 0;
                while k < self.input_queue_map[i].sinks.len()
                    invariant
                        i < self.input_queue_map@.len(),
                        self.input_queue_map@.len() == old(self).input_queue_map@.len(),
                        self.port == old(self).port,
                        forall|j: int| 0 <= j < self.input_queue_map@.len() && j != i
                            ==> #[trigger] self.input_queue_map@[j] == old(self).input_queue_map@[j],
                        self.input_queue_map@[i as int].id == old(self).input_queue_map@[i as int].id,
                        before == old(self).input_queue_map@[i as int].sinks@,
                        self.input_queue_map@[i as int].sinks@.len() == before.len(),
                        0 <= k <= before.len(),
                        forall|m: int| 0 <= m < k ==> #[trigger] self.input_queue_map@[i as int].sinks@[m].accepted()
                            == before[m].accepted().push(payload@),
                        forall|m: int| 0 <= m < k ==> #[trigger] self.input_queue_map@[i as int].sinks@[m].absorbed(&before[m], payload@),
                        forall|m: int| k <= m < before.len() ==> #[trigger] self.input_queue_map@[i as int].sinks@[m] == before[m],
                    decreases before.len() - k,
                {
                    self.input_queue_map[i].sinks[k].push_data(payload);
                    k = k + 1;
                }
                assert(self.channels() =~= old(self).channels());
                proof {
                    assert(old(self).channels()[i as int] == channel@);
                    assert(old(self).channels().contains(channel@));
                }
                true
            },
        }
    }
}

} // verus!
