use crate::channel::Message;
use crate::error::{Error, Result};
use crate::hub::Hub;
use crate::permission::ChannelPermission;
use crate::{first_free, random_u128, ID};
use std::collections::{HashMap, HashSet};
use vstd::prelude::*;
use vstd::std_specs::iter::IteratorSpec;

verus! {

broadcast use vstd::std_specs::hash::group_hash_axioms;

/// Registers a new connection with its writer handle.
pub struct Connect<W> {
    pub websocket_writer: W,
}

/// Unsubscribes a connection from everything and forgets its writer.
#[derive(Clone, Copy, Debug)]
pub struct Disconnect {
    pub connection_id: u128,
}

/// Subscribes a connection to notifications on a hub.
#[derive(Clone, Copy, Debug)]
pub struct SubscribeHub {
    pub user_id: ID,
    pub hub_id: ID,
    pub connection_id: u128,
}

/// Unsubscribes a connection from notifications on a hub.
#[derive(Clone, Copy, Debug)]
pub struct UnsubscribeHub {
    pub hub_id: ID,
    pub connection_id: u128,
}

/// Subscribes a connection to new messages in a channel.
#[derive(Clone, Copy, Debug)]
pub struct SubscribeChannel {
    pub user_id: ID,
    pub hub_id: ID,
    pub channel_id: ID,
    pub connection_id: u128,
}

/// Unsubscribes a connection from new messages in a channel.
#[derive(Clone, Copy, Debug)]
pub struct UnsubscribeChannel {
    pub hub_id: ID,
    pub channel_id: ID,
    pub connection_id: u128,
}

/// A user started typing in a channel.
#[derive(Clone, Copy, Debug)]
pub struct StartTyping {
    pub user_id: ID,
    pub hub_id: ID,
    pub channel_id: ID,
}

/// A user stopped typing in a channel.
#[derive(Clone, Copy, Debug)]
pub struct StopTyping {
    pub user_id: ID,
    pub hub_id: ID,
    pub channel_id: ID,
}

/// A new message of a channel, to be added to the channel's search index.
#[derive(Debug)]
pub struct NewMessageForIndex {
    pub hub_id: ID,
    pub channel_id: ID,
    pub message: Message,
}

/// A search in a channel's index.
#[derive(Clone, Debug)]
pub struct SearchMessageIndex {
    /// ID of the hub the channel is in.
    pub hub_id: ID,
    /// ID of the channel in which to search.
    pub channel_id: ID,
    /// Maximum number of results to return.
    pub limit: usize,
    /// Query string.
    pub query: String,
}

/// Asks for the address of the indexer.
#[derive(Clone, Copy, Debug)]
pub struct GetMessageServer;

/// Kinds of changes announced by [`ServerNotification::HubUpdated`].
#[derive(Clone, Copy, Debug, PartialEq, Eq, Structural)]
pub enum HubUpdateType {
    HubDeleted,
    HubRenamed,
    HubDescriptionUpdated,
    UserJoined(ID),
    UserLeft(ID),
    UserBanned(ID),
    UserMuted(ID),
    UserUnmuted(ID),
    UserUnbanned(ID),
    UserKicked(ID),
    UserHubPermissionChanged(ID),
    UserChannelPermissionChanged(ID, ID),
    UsernameChanged(ID),
    UserStatusUpdated(ID),
    UserDescriptionUpdated(ID),
    MemberNicknameChanged(ID),
    ChannelCreated(ID),
    ChannelDeleted(ID),
    ChannelRenamed(ID),
    ChannelDescriptionUpdated(ID),
}

/// A change made outside the server that connected clients are told of.
#[derive(Debug)]
pub enum ServerNotification {
    /// Hub, channel, message ID, armoured signed message, and the message itself.
    NewMessage(ID, ID, ID, String, Message),
    HubUpdated(ID, HubUpdateType),
}

/// Payload of a frame sent to clients (signed before it is sent).
#[derive(Debug)]
pub enum ServerMessage {
    ChatMessage { hub_id: ID, channel_id: ID, message_id: ID, armoured_message: String },
    HubUpdated { hub_id: ID, update_type: HubUpdateType },
    UserStartedTyping { user_id: ID, hub_id: ID, channel_id: ID },
    UserStoppedTyping { user_id: ID, hub_id: ID, channel_id: ID },
}

/// A payload and the connections it goes to.
#[derive(Debug)]
pub struct Broadcast {
    pub message: ServerMessage,
    pub recipients: Vec<u128>,
}

/// What handling a [`ServerNotification`] asks for: an indexing request, if any, and a
/// broadcast.
#[derive(Debug)]
pub struct NotificationEffects {
    pub index: Option<NewMessageForIndex>,
    pub broadcast: Broadcast,
}

/// A channel, named by its hub and its own ID.
#[derive(Clone, Copy, Debug, PartialEq, Eq, Structural, Hash)]
pub struct ChannelKey {
    pub hub_id: ID,
    pub channel_id: ID,
}

/// The subscriptions of one connection.
#[derive(Debug)]
pub struct Subscriptions {
    pub channels: Vec<ChannelKey>,
    pub hubs: Vec<ID>,
}

/// Abstract subscription state: the connected connections and the (connection, channel) and
/// (connection, hub) subscription pairs.
pub struct SubscriptionState {
    pub connected: Set<u128>,
    pub channels: Set<(u128, ChannelKey)>,
    pub hubs: Set<(u128, ID)>,
}

impl SubscriptionState {
    /// The state after connection `k` disconnects: `k` is gone, with all its subscriptions.
    pub open spec fn disconnect(self, k: u128) -> SubscriptionState {
        SubscriptionState {
            connected: self.connected.remove(k),
            channels: self.channels.filter(|p: (u128, ChannelKey)| p.0 != k),
            hubs: self.hubs.filter(|p: (u128, ID)| p.0 != k),
        }
    }
}

/// Disconnecting a connection twice leaves the same state as disconnecting it once.
pub proof fn lemma_disconnect_idempotent(s: SubscriptionState, k: u128)
    ensures
        s.disconnect(k).disconnect(k) == s.disconnect(k),
{
    assert(s.disconnect(k).disconnect(k).connected =~= s.disconnect(k).connected);
    assert(s.disconnect(k).disconnect(k).channels =~= s.disconnect(k).channels);
    assert(s.disconnect(k).disconnect(k).hubs =~= s.disconnect(k).hubs);
}

/// Connections, their writer handles, and the two-way subscription indices.
pub struct Server<W> {
    connected: HashMap<u128, W>,
    subscribed: HashMap<u128, Subscriptions>,
    subscribed_hubs: HashMap<ID, HashSet<u128>>,
    subscribed_channels: HashMap<ID, HashMap<ID, HashSet<u128>>>,
}

/// `v` with every `x` left out, as a set.
fn keys_without(v: &Vec<ChannelKey>, x: ChannelKey) -> (r: Vec<ChannelKey>)
    ensures
        r@.to_set() == v@.to_set().remove(x),
{
    let mut r: Vec<ChannelKey> = Vec::new();
    let mut i: usize = 0;
    while i < v.len()
        invariant
            i <= v.len(),
            r@.to_set() == v@.take(i as int).to_set().remove(x),
        decreases v.len() - i,
    {
        assert(v@.take(i + 1) == v@.take(i as int).push(v@[i as int]));
        proof {
            v@.take(i as int).lemma_push_to_set_commute(v@[i as int]);
            r@.lemma_push_to_set_commute(v@[i as int]);
        }
        if v[i] != x {
            r.push(v[i]);
        }
        assert(r@.to_set() =~= v@.take(i + 1).to_set().remove(x));
        i = i + 1;
    }
    assert(v@.take(v.len() as int) == v@);
    r
}

fn keys_contain(v: &Vec<ChannelKey>, x: ChannelKey) -> (r: bool)
    ensures
        r == v@.contains(x),
{
    let mut i: usize = 0;
    while i < v.len()
        invariant
            i <= v.len(),
            forall|j: int| 0 <= j < i ==> v@[j] != x,
        decreases v.len() - i,
    {
        if v[i] == x {
            return true;
        }
        i = i + 1;
    }
    false
}

/// The elements of a set, each once.
fn set_to_vec(s: &HashSet<u128>) -> (r: Vec<u128>)
    ensures
        r@.to_set() == s@,
        r@.no_duplicates(),
{
    let mut r: Vec<u128> = Vec::new();
    let ghost all = vstd::std_specs::hash::spec_hash_keys_iter(s).remaining().unref();
    let ghost mut seen: int = 0;
    for k in it: s.iter()
        invariant
            seen == it.index(),
            all == it.seq().unref(),
            it.seq() == vstd::std_specs::hash::spec_hash_keys_iter(s).remaining(),
            all.to_set() == s@,
            all.no_duplicates(),
            r@ == all.take(seen),
    {
        r.push(*k);
        assert(r@ =~= all.take(seen + 1));
        proof {
            seen = seen + 1;
        }
    }
    assert(all.take(seen) =~= all);
    r
}

impl Subscriptions {
    fn new() -> (r: Self)
        ensures
            r.channels@ == Seq::<ChannelKey>::empty(),
            r.hubs@ == Seq::<ID>::empty(),
    {
        Subscriptions { channels: Vec::new(), hubs: Vec::new() }
    }
}

impl<W> Server<W> {
    /// The channels connection `k` is subscribed to, by its own index.
    pub closed spec fn conn_channels(&self, k: u128) -> Set<ChannelKey> {
        if self.subscribed@.contains_key(k) {
            self.subscribed@[k].channels@.to_set()
        } else {
            Set::empty()
        }
    }

    /// The hubs connection `k` is subscribed to, by its own index.
    pub closed spec fn conn_hubs(&self, k: u128) -> Set<ID> {
        if self.subscribed@.contains_key(k) {
            self.subscribed@[k].hubs@.to_set()
        } else {
            Set::empty()
        }
    }

    /// The connections subscribed to a channel, by the channel index.
    pub closed spec fn channel_conns(&self, key: ChannelKey) -> Set<u128> {
        if self.subscribed_channels@.contains_key(key.hub_id)
            && self.subscribed_channels@[key.hub_id]@.contains_key(key.channel_id) {
            self.subscribed_channels@[key.hub_id]@[key.channel_id]@
        } else {
            Set::empty()
        }
    }

    /// The connections subscribed to a hub, by the hub index.
    pub closed spec fn hub_conns(&self, h: ID) -> Set<u128> {
        if self.subscribed_hubs@.contains_key(h) {
            self.subscribed_hubs@[h]@
        } else {
            Set::empty()
        }
    }

    /// The connected connections.
    pub closed spec fn connections(&self) -> Set<u128> {
        self.connected@.dom()
    }

    /// The writer handle of connection `k`.
    pub closed spec fn writer(&self, k: u128) -> W {
        self.connected@[k]
    }

    /// Both indices agree: a connection lists a channel (hub) exactly when the channel (hub)
    /// lists the connection.
    pub closed spec fn wf(&self) -> bool {
        &&& forall|k: u128, key: ChannelKey|
            #[trigger] self.conn_channels(k).contains(key) <==> #[trigger] self.channel_conns(
                key,
            ).contains(k)
        &&& forall|k: u128, h: ID|
            #[trigger] self.conn_hubs(k).contains(h) <==> #[trigger] self.hub_conns(h).contains(
                k,
            )
    }

    /// The abstract subscription state.
    pub open spec fn state(&self) -> SubscriptionState {
        SubscriptionState {
            connected: self.connections(),
            channels: Set::new(|p: (u128, ChannelKey)| self.conn_channels(p.0).contains(p.1)),
            hubs: Set::new(|p: (u128, ID)| self.conn_hubs(p.0).contains(p.1)),
        }
    }

    /// The connections subscribed to channel `key` in state `s`.
    pub open spec fn subscribers_of_channel(s: SubscriptionState, key: ChannelKey) -> Set<u128> {
        Set::new(|k: u128| s.channels.contains((k, key)))
    }

    /// The connections subscribed to hub `h` in state `s`.
    pub open spec fn subscribers_of_hub(s: SubscriptionState, h: ID) -> Set<u128> {
        Set::new(|k: u128| s.hubs.contains((k, h)))
    }

    /// A server with no connections and no subscriptions.
    pub fn new() -> (r: Self)
        ensures
            r.wf(),
            r.state().connected == Set::<u128>::empty(),
            r.state().channels == Set::<(u128, ChannelKey)>::empty(),
            r.state().hubs == Set::<(u128, ID)>::empty(),
    {
        let r = Server {
            connected: HashMap::new(),
            subscribed: HashMap::new(),
            subscribed_hubs: HashMap::new(),
            subscribed_channels: HashMap::new(),
        };
        assert(r.state().connected =~= Set::<u128>::empty());
        assert(r.state().channels =~= Set::<(u128, ChannelKey)>::empty());
        assert(r.state().hubs =~= Set::<(u128, ID)>::empty());
        r
    }

    fn add_channel_conn(&mut self, key: ChannelKey, k: u128)
        ensures
            forall|key2: ChannelKey|
                #[trigger] final(self).channel_conns(key2) == if key2 == key {
                    old(self).channel_conns(key).insert(k)
                } else {
                    old(self).channel_conns(key2)
                },
            final(self).subscribed == old(self).subscribed,
            final(self).subscribed_hubs == old(self).subscribed_hubs,
            final(self).connected == old(self).connected,
            forall|k2: u128| #[trigger] final(self).conn_channels(k2) == old(self).conn_channels(k2),
            forall|k2: u128| #[trigger] final(self).conn_hubs(k2) == old(self).conn_hubs(k2),
            forall|h2: ID| #[trigger] final(self).hub_conns(h2) == old(self).hub_conns(h2),
    {
        let mut inner = match self.subscribed_channels.remove(&key.hub_id) {
            Some(m) => m,
            None => HashMap::new(),
        };
        let mut conns = match inner.remove(&key.channel_id) {
            Some(c) => c,
            None => HashSet::new(),
        };
        conns.insert(k);
        inner.insert(key.channel_id, conns);
        self.subscribed_channels.insert(key.hub_id, inner);
        assert forall|key2: ChannelKey| key2 != key implies #[trigger] self.channel_conns(key2)
            == old(self).channel_conns(key2) by {
            if key2.hub_id == key.hub_id {
                assert(key2.channel_id != key.channel_id);
            }
        }
    }

    fn remove_channel_conn(&mut self, key: ChannelKey, k: u128)
        ensures
            forall|key2: ChannelKey|
                #[trigger] final(self).channel_conns(key2) == if key2 == key {
                    old(self).channel_conns(key).remove(k)
                } else {
                    old(self).channel_conns(key2)
                },
            final(self).subscribed == old(self).subscribed,
            final(self).subscribed_hubs == old(self).subscribed_hubs,
            final(self).connected == old(self).connected,
            forall|k2: u128| #[trigger] final(self).conn_channels(k2) == old(self).conn_channels(k2),
            forall|k2: u128| #[trigger] final(self).conn_hubs(k2) == old(self).conn_hubs(k2),
            forall|h2: ID| #[trigger] final(self).hub_conns(h2) == old(self).hub_conns(h2),
    {
        match self.subscribed_channels.remove(&key.hub_id) {
            Some(mut inner) => {
                match inner.remove(&key.channel_id) {
                    Some(mut conns) => {
                        conns.remove(&k);
                        inner.insert(key.channel_id, conns);
                    },
                    None => {},
                }
                self.subscribed_channels.insert(key.hub_id, inner);
                assert forall|key2: ChannelKey| key2 != key implies #[trigger] self.channel_conns(key2)
                    == old(self).channel_conns(key2) by {
                    if key2.hub_id == key.hub_id {
                        assert(key2.channel_id != key.channel_id);
                    }
                }
                assert(self.channel_conns(key) =~= old(self).channel_conns(key).remove(k));
            },
            None => {
                assert(self.subscribed_channels@ =~= old(self).subscribed_channels@);
                assert(old(self).channel_conns(key).remove(k) =~= old(self).channel_conns(key));
            },
        }
    }

    fn add_hub_conn(&mut self, h: ID, k: u128)
        ensures
            forall|h2: ID|
                #[trigger] final(self).hub_conns(h2) == if h2 == h {
                    old(self).hub_conns(h).insert(k)
                } else {
                    old(self).hub_conns(h2)
                },
            final(self).subscribed == old(self).subscribed,
            final(self).subscribed_channels == old(self).subscribed_channels,
            final(self).connected == old(self).connected,
            forall|k2: u128| #[trigger] final(self).conn_channels(k2) == old(self).conn_channels(k2),
            forall|k2: u128| #[trigger] final(self).conn_hubs(k2) == old(self).conn_hubs(k2),
            forall|key2: ChannelKey| #[trigger] final(self).channel_conns(key2) == old(self).channel_conns(key2),
    {
        let mut conns = match self.subscribed_hubs.remove(&h) {
            Some(c) => c,
            None => HashSet::new(),
        };
        conns.insert(k);
        self.subscribed_hubs.insert(h, conns);
    }

    fn remove_hub_conn(&mut self, h: ID, k: u128)
        ensures
            forall|h2: ID|
                #[trigger] final(self).hub_conns(h2) == if h2 == h {
                    old(self).hub_conns(h).remove(k)
                } else {
                    old(self).hub_conns(h2)
                },
            final(self).subscribed == old(self).subscribed,
            final(self).subscribed_channels == old(self).subscribed_channels,
            final(self).connected == old(self).connected,
            forall|k2: u128| #[trigger] final(self).conn_channels(k2) == old(self).conn_channels(k2),
            forall|k2: u128| #[trigger] final(self).conn_hubs(k2) == old(self).conn_hubs(k2),
            forall|key2: ChannelKey| #[trigger] final(self).channel_conns(key2) == old(self).channel_conns(key2),
    {
        match self.subscribed_hubs.remove(&h) {
            Some(mut conns) => {
                conns.remove(&k);
                self.subscribed_hubs.insert(h, conns);
            },
            None => {
                assert(self.subscribed_hubs@ =~= old(self).subscribed_hubs@);
                assert(old(self).hub_conns(h).remove(k) =~= old(self).hub_conns(h));
            },
        }
    }
}

impl<W> Server<W> {
    fn add_conn_channel(&mut self, k: u128, key: ChannelKey)
        ensures
            forall|k2: u128|
                #[trigger] final(self).conn_channels(k2) == if k2 == k {
                    old(self).conn_channels(k).insert(key)
                } else {
                    old(self).conn_channels(k2)
                },
            forall|k2: u128| #[trigger] final(self).conn_hubs(k2) == old(self).conn_hubs(k2),
            final(self).subscribed_channels == old(self).subscribed_channels,
            final(self).subscribed_hubs == old(self).subscribed_hubs,
            final(self).connected == old(self).connected,
            forall|key2: ChannelKey| #[trigger] final(self).channel_conns(key2) == old(self).channel_conns(key2),
            forall|h2: ID| #[trigger] final(self).hub_conns(h2) == old(self).hub_conns(h2),
    {
        let mut subs = match self.subscribed.remove(&k) {
            Some(s) => s,
            None => Subscriptions::new(),
        };
        proof {
            subs.channels@.lemma_push_to_set_commute(key);
        }
        if !keys_contain(&subs.channels, key) {
            subs.channels.push(key);
        }
        assert(subs.channels@.to_set() =~= old(self).conn_channels(k).insert(key));
        assert(subs.hubs@.to_set() =~= old(self).conn_hubs(k));
        self.subscribed.insert(k, subs);
    }

    fn remove_conn_channel(&mut self, k: u128, key: ChannelKey)
        ensures
            forall|k2: u128|
                #[trigger] final(self).conn_channels(k2) == if k2 == k {
                    old(self).conn_channels(k).remove(key)
                } else {
                    old(self).conn_channels(k2)
                },
            forall|k2: u128| #[trigger] final(self).conn_hubs(k2) == old(self).conn_hubs(k2),
            final(self).subscribed_channels == old(self).subscribed_channels,
            final(self).subscribed_hubs == old(self).subscribed_hubs,
            final(self).connected == old(self).connected,
            forall|key2: ChannelKey| #[trigger] final(self).channel_conns(key2) == old(self).channel_conns(key2),
            forall|h2: ID| #[trigger] final(self).hub_conns(h2) == old(self).hub_conns(h2),
    {
        match self.subscribed.remove(&k) {
            Some(mut subs) => {
                subs.channels = keys_without(&subs.channels, key);
                self.subscribed.insert(k, subs);
            },
            None => {
                assert(self.subscribed@ =~= old(self).subscribed@);
                assert(old(self).conn_channels(k).remove(key) =~= old(self).conn_channels(k));
            },
        }
    }

    fn add_conn_hub(&mut self, k: u128, h: ID)
        ensures
            forall|k2: u128|
                #[trigger] final(self).conn_hubs(k2) == if k2 == k {
                    old(self).conn_hubs(k).insert(h)
                } else {
                    old(self).conn_hubs(k2)
                },
            forall|k2: u128|
                #[trigger] final(self).conn_channels(k2) == old(self).conn_channels(k2),
            final(self).subscribed_channels == old(self).subscribed_channels,
            final(self).subscribed_hubs == old(self).subscribed_hubs,
            final(self).connected == old(self).connected,
            forall|key2: ChannelKey| #[trigger] final(self).channel_conns(key2) == old(self).channel_conns(key2),
            forall|h2: ID| #[trigger] final(self).hub_conns(h2) == old(self).hub_conns(h2),
    {
        let mut subs = match self.subscribed.remove(&k) {
            Some(s) => s,
            None => Subscriptions::new(),
        };
        proof {
            subs.hubs@.lemma_push_to_set_commute(h);
        }
        if !crate::hub::vec_contains(&subs.hubs, h) {
            subs.hubs.push(h);
        }
        assert(subs.hubs@.to_set() =~= old(self).conn_hubs(k).insert(h));
        assert(subs.channels@.to_set() =~= old(self).conn_channels(k));
        self.subscribed.insert(k, subs);
    }

    fn remove_conn_hub(&mut self, k: u128, h: ID)
        ensures
            forall|k2: u128|
                #[trigger] final(self).conn_hubs(k2) == if k2 == k {
                    old(self).conn_hubs(k).remove(h)
                } else {
                    old(self).conn_hubs(k2)
                },
            forall|k2: u128|
                #[trigger] final(self).conn_channels(k2) == old(self).conn_channels(k2),
            final(self).subscribed_channels == old(self).subscribed_channels,
            final(self).subscribed_hubs == old(self).subscribed_hubs,
            final(self).connected == old(self).connected,
            forall|key2: ChannelKey| #[trigger] final(self).channel_conns(key2) == old(self).channel_conns(key2),
            forall|h2: ID| #[trigger] final(self).hub_conns(h2) == old(self).hub_conns(h2),
    {
        match self.subscribed.remove(&k) {
            Some(mut subs) => {
                subs.hubs = crate::hub::vec_without(&subs.hubs, h);
                self.subscribed.insert(k, subs);
            },
            None => {
                assert(self.subscribed@ =~= old(self).subscribed@);
                assert(old(self).conn_hubs(k).remove(h) =~= old(self).conn_hubs(k));
            },
        }
    }

    proof fn lemma_wf_same_indices(a: Self, b: Self)
        requires
            a.wf(),
            a.subscribed == b.subscribed,
            a.subscribed_hubs == b.subscribed_hubs,
            a.subscribed_channels == b.subscribed_channels,
        ensures
            b.wf(),
    {
        assert forall|k2: u128, key: ChannelKey|
            #[trigger] b.conn_channels(k2).contains(key) <==> #[trigger] b.channel_conns(
                key,
            ).contains(k2) by {
            assert(a.conn_channels(k2).contains(key) <==> a.channel_conns(key).contains(k2));
        }
        assert forall|k2: u128, h: ID|
            #[trigger] b.conn_hubs(k2).contains(h) <==> #[trigger] b.hub_conns(h).contains(k2) by {
            assert(a.conn_hubs(k2).contains(h) <==> a.hub_conns(h).contains(k2));
        }
    }

    /// Registers a connection under a new ID, which it returns.
    pub fn connect(&mut self, msg: Connect<W>) -> (id: u128)
        requires
            old(self).wf(),
        ensures
            final(self).wf(),
            !old(self).state().connected.contains(id),
            final(self).state().connected == old(self).state().connected.insert(id),
            final(self).state().channels == old(self).state().channels,
            final(self).state().hubs == old(self).state().hubs,
            final(self).writer(id) == msg.websocket_writer,
    {
        let mut candidate = random_u128();
        if self.connected.contains_key(&candidate) {
            candidate = random_u128();
        }
        let id = first_free(&self.connected, candidate);
        self.connected.insert(id, msg.websocket_writer);
        proof {
            Self::lemma_wf_same_indices(*old(self), *self);
        }
        assert(self.state().connected =~= old(self).state().connected.insert(id));
        assert(self.state().channels =~= old(self).state().channels);
        assert(self.state().hubs =~= old(self).state().hubs);
        id
    }

    /// Removes a connection: its subscriptions on both indices and its writer handle. A
    /// connection that is not there is left alone.
    pub fn disconnect(&mut self, msg: Disconnect)
        requires
            old(self).wf(),
        ensures
            final(self).wf(),
            final(self).state() == old(self).state().disconnect(msg.connection_id),
    {
        let k = msg.connection_id;
        let ghost before = *self;
        self.connected.remove(&k);
        match self.subscribed.remove(&k) {
            Some(subs) => {
                let mut i: usize = 0;
                while i < subs.channels.len()
                    invariant
                        i <= subs.channels.len(),
                        subs.channels@.to_set() == before.conn_channels(k),
                        subs.hubs@.to_set() == before.conn_hubs(k),
                        self.subscribed@ == before.subscribed@.remove(k),
                        self.subscribed_hubs == before.subscribed_hubs,
                        self.connected@ == before.connected@.remove(k),
                        forall|key2: ChannelKey|
                            #[trigger] self.channel_conns(key2) == if subs.channels@.take(
                                i as int,
                            ).contains(key2) {
                                before.channel_conns(key2).remove(k)
                            } else {
                                before.channel_conns(key2)
                            },
                    decreases subs.channels.len() - i,
                {
                    self.remove_channel_conn(subs.channels[i], k);
                    assert(subs.channels@.take(i + 1) == subs.channels@.take(i as int).push(
                        subs.channels@[i as int],
                    ));
                    assert forall|key2: ChannelKey|
                        subs.channels@.take(i + 1).contains(key2) == (subs.channels@.take(
                            i as int,
                        ).contains(key2) || key2 == subs.channels@[i as int]) by {
                        if key2 == subs.channels@[i as int] {
                            assert(subs.channels@.take(i + 1)[i as int] == key2);
                        }
                        if subs.channels@.take(i as int).contains(key2) {
                            let j = choose|j: int|
                                0 <= j < i && subs.channels@.take(i as int)[j] == key2;
                            assert(subs.channels@.take(i + 1)[j] == key2);
                        }
                    }
                    i = i + 1;
                }
                assert(subs.channels@.take(subs.channels.len() as int) == subs.channels@);
                let mut j: usize = 0;
                while j < subs.hubs.len()
                    invariant
                        j <= subs.hubs.len(),
                        subs.channels@.to_set() == before.conn_channels(k),
                        subs.hubs@.to_set() == before.conn_hubs(k),
                        self.subscribed@ == before.subscribed@.remove(k),
                        self.connected@ == before.connected@.remove(k),
                        forall|key2: ChannelKey|
                            #[trigger] self.channel_conns(key2) == if subs.channels@.contains(key2) {
                                before.channel_conns(key2).remove(k)
                            } else {
                                before.channel_conns(key2)
                            },
                        forall|h2: ID|
                            #[trigger] self.hub_conns(h2) == if subs.hubs@.take(j as int).contains(
                                h2,
                            ) {
                                before.hub_conns(h2).remove(k)
                            } else {
                                before.hub_conns(h2)
                            },
                    decreases subs.hubs.len() - j,
                {
                    let ghost prev = *self;
                    self.remove_hub_conn(subs.hubs[j], k);
                    assert forall|key2: ChannelKey| #[trigger]
                        self.channel_conns(key2) == prev.channel_conns(key2) by {}
                    assert(subs.hubs@.take(j + 1) == subs.hubs@.take(j as int).push(
                        subs.hubs@[j as int],
                    ));
                    assert forall|h2: ID|
                        subs.hubs@.take(j + 1).contains(h2) == (subs.hubs@.take(
                            j as int,
                        ).contains(h2) || h2 == subs.hubs@[j as int]) by {
                        if h2 == subs.hubs@[j as int] {
                            assert(subs.hubs@.take(j + 1)[j as int] == h2);
                        }
                        if subs.hubs@.take(j as int).contains(h2) {
                            let t = choose|t: int|
                                0 <= t < j && subs.hubs@.take(j as int)[t] == h2;
                            assert(subs.hubs@.take(j + 1)[t] == h2);
                        }
                    }
                    j = j + 1;
                }
                assert(subs.hubs@.take(subs.hubs.len() as int) == subs.hubs@);
                proof {
                    assert forall|key2: ChannelKey| #[trigger]
                        self.channel_conns(key2) == before.channel_conns(key2).remove(k) by {
                        if !subs.channels@.contains(key2) {
                            assert(!before.conn_channels(k).contains(key2));
                            assert(before.channel_conns(key2).remove(k) =~= before.channel_conns(
                                key2,
                            ));
                        }
                    }
                    assert forall|h2: ID| #[trigger]
                        self.hub_conns(h2) == before.hub_conns(h2).remove(k) by {
                        if !subs.hubs@.contains(h2) {
                            assert(!before.conn_hubs(k).contains(h2));
                            assert(before.hub_conns(h2).remove(k) =~= before.hub_conns(h2));
                        }
                    }
                }
            },
            None => {
                proof {
                    assert forall|key2: ChannelKey| #[trigger]
                        self.channel_conns(key2) == before.channel_conns(key2).remove(k) by {
                        assert(!before.conn_channels(k).contains(key2));
                        assert(before.channel_conns(key2).remove(k) =~= before.channel_conns(key2));
                    }
                    assert forall|h2: ID| #[trigger]
                        self.hub_conns(h2) == before.hub_conns(h2).remove(k) by {
                        assert(!before.conn_hubs(k).contains(h2));
                        assert(before.hub_conns(h2).remove(k) =~= before.hub_conns(h2));
                    }
                }
            },
        }
        proof {
            assert forall|k2: u128| #[trigger]
                self.conn_channels(k2) == (if k2 == k {
                    Set::empty()
                } else {
                    before.conn_channels(k2)
                }) by {}
            assert forall|k2: u128| #[trigger]
                self.conn_hubs(k2) == (if k2 == k {
                    Set::empty()
                } else {
                    before.conn_hubs(k2)
                }) by {}
            assert forall|k2: u128, key: ChannelKey|
                #[trigger] self.conn_channels(k2).contains(key) <==> #[trigger] self.channel_conns(
                    key,
                ).contains(k2) by {
                assert(before.conn_channels(k2).contains(key) <==> before.channel_conns(
                    key,
                ).contains(k2));
                assert(self.channel_conns(key) == before.channel_conns(key).remove(k));
                assert(self.conn_channels(k2) == (if k2 == k {
                    Set::empty()
                } else {
                    before.conn_channels(k2)
                }));
            }
            assert forall|k2: u128, h: ID|
                #[trigger] self.conn_hubs(k2).contains(h) <==> #[trigger] self.hub_conns(
                    h,
                ).contains(k2) by {
                assert(before.conn_hubs(k2).contains(h) <==> before.hub_conns(h).contains(k2));
                assert(self.hub_conns(h) == before.hub_conns(h).remove(k));
                assert(self.conn_hubs(k2) == (if k2 == k {
                    Set::empty()
                } else {
                    before.conn_hubs(k2)
                }));
            }
            assert(self.state().connected =~= before.state().disconnect(k).connected);
            assert(self.state().channels =~= before.state().disconnect(k).channels);
            assert(self.state().hubs =~= before.state().disconnect(k).hubs);
        }
    }
}

impl<W> Server<W> {
    /// Subscribes a connection to hub notifications, if the user is a member of `hub`.
    pub fn subscribe_hub(&mut self, msg: SubscribeHub, hub: &Hub) -> (r: Result)
        requires
            old(self).wf(),
        ensures
            final(self).wf(),
            match r {
                Ok(_) => {
                    &&& hub.members@.contains_key(msg.user_id)
                    &&& final(self).state().connected == old(self).state().connected
                    &&& final(self).state().channels == old(self).state().channels
                    &&& final(self).state().hubs == old(self).state().hubs.insert(
                        (msg.connection_id, msg.hub_id),
                    )
                },
                Err(e) => {
                    &&& !hub.members@.contains_key(msg.user_id)
                    &&& e == Error::MemberNotFound
                    &&& final(self).state() == old(self).state()
                },
            },
    {
        if let Err(e) = hub.get_member(&msg.user_id) {
            return Err(e);
        }
        let k = msg.connection_id;
        let h = msg.hub_id;
        self.add_conn_hub(k, h);
        self.add_hub_conn(h, k);
        proof {
            assert forall|k2: u128, h2: ID|
                #[trigger] self.conn_hubs(k2).contains(h2) <==> #[trigger] self.hub_conns(
                    h2,
                ).contains(k2) by {
                assert(old(self).conn_hubs(k2).contains(h2) <==> old(self).hub_conns(h2).contains(
                    k2,
                ));
            }
            assert forall|k2: u128, key: ChannelKey|
                #[trigger] self.conn_channels(k2).contains(key) <==> #[trigger] self.channel_conns(
                    key,
                ).contains(k2) by {
                assert(old(self).conn_channels(k2).contains(key) <==> old(self).channel_conns(
                    key,
                ).contains(k2));
            }
            assert(self.state().channels =~= old(self).state().channels);
            assert(self.state().hubs =~= old(self).state().hubs.insert((k, h)));
        }
        Ok(())
    }

    /// Unsubscribes a connection from hub notifications; nothing changes when it was not
    /// subscribed.
    pub fn unsubscribe_hub(&mut self, msg: UnsubscribeHub)
        requires
            old(self).wf(),
        ensures
            final(self).wf(),
            final(self).state().connected == old(self).state().connected,
            final(self).state().channels == old(self).state().channels,
            final(self).state().hubs == old(self).state().hubs.remove(
                (msg.connection_id, msg.hub_id),
            ),
    {
        let k = msg.connection_id;
        let h = msg.hub_id;
        self.remove_conn_hub(k, h);
        self.remove_hub_conn(h, k);
        proof {
            assert forall|k2: u128, h2: ID|
                #[trigger] self.conn_hubs(k2).contains(h2) <==> #[trigger] self.hub_conns(
                    h2,
                ).contains(k2) by {
                assert(old(self).conn_hubs(k2).contains(h2) <==> old(self).hub_conns(h2).contains(
                    k2,
                ));
            }
            assert forall|k2: u128, key: ChannelKey|
                #[trigger] self.conn_channels(k2).contains(key) <==> #[trigger] self.channel_conns(
                    key,
                ).contains(k2) by {
                assert(old(self).conn_channels(k2).contains(key) <==> old(self).channel_conns(
                    key,
                ).contains(k2));
            }
            assert(self.state().channels =~= old(self).state().channels);
            assert(self.state().hubs =~= old(self).state().hubs.remove((k, h)));
        }
    }

    /// Subscribes a connection to a channel's new messages, if the user is a member of `hub`
    /// who may read messages in the channel.
    pub fn subscribe_channel(&mut self, msg: SubscribeChannel, hub: &Hub) -> (r: Result)
        requires
            old(self).wf(),
        ensures
            final(self).wf(),
            match r {
                Ok(_) => {
                    &&& hub.member_has_channel(
                        msg.user_id,
                        msg.channel_id,
                        ChannelPermission::ReadMessage,
                    )
                    &&& final(self).state().connected == old(self).state().connected
                    &&& final(self).state().hubs == old(self).state().hubs
                    &&& final(self).state().channels == old(self).state().channels.insert(
                        (
                            msg.connection_id,
                            (ChannelKey { hub_id: msg.hub_id, channel_id: msg.channel_id }),
                        ),
                    )
                },
                Err(e) => {
                    &&& e == if !hub.members@.contains_key(msg.user_id) {
                        Error::MemberNotFound
                    } else {
                        Error::MissingChannelPermission(ChannelPermission::ReadMessage)
                    }
                    &&& !hub.member_has_channel(
                        msg.user_id,
                        msg.channel_id,
                        ChannelPermission::ReadMessage,
                    )
                    &&& final(self).state() == old(self).state()
                },
            },
    {
        let allowed = match hub.get_member(&msg.user_id) {
            Ok(member) => member.has_channel_permission(
                &msg.channel_id,
                &ChannelPermission::ReadMessage,
                hub,
            ),
            Err(e) => {
                return Err(e);
            },
        };
        if !allowed {
            return Err(Error::MissingChannelPermission(ChannelPermission::ReadMessage));
        }
        let k = msg.connection_id;
        let key = ChannelKey { hub_id: msg.hub_id, channel_id: msg.channel_id };
        self.add_conn_channel(k, key);
        self.add_channel_conn(key, k);
        proof {
            assert forall|k2: u128, h2: ID|
                #[trigger] self.conn_hubs(k2).contains(h2) <==> #[trigger] self.hub_conns(
                    h2,
                ).contains(k2) by {
                assert(old(self).conn_hubs(k2).contains(h2) <==> old(self).hub_conns(h2).contains(
                    k2,
                ));
            }
            assert forall|k2: u128, key2: ChannelKey|
                #[trigger] self.conn_channels(k2).contains(key2) <==> #[trigger] self.channel_conns(
                    key2,
                ).contains(k2) by {
                assert(old(self).conn_channels(k2).contains(key2) <==> old(self).channel_conns(
                    key2,
                ).contains(k2));
            }
            assert(self.state().hubs =~= old(self).state().hubs);
            assert(self.state().channels =~= old(self).state().channels.insert((k, key)));
        }
        Ok(())
    }

    /// Unsubscribes a connection from a channel; nothing changes when it was not subscribed.
    pub fn unsubscribe_channel(&mut self, msg: UnsubscribeChannel)
        requires
            old(self).wf(),
        ensures
            final(self).wf(),
            final(self).state().connected == old(self).state().connected,
            final(self).state().hubs == old(self).state().hubs,
            final(self).state().channels == old(self).state().channels.remove(
                (
                    msg.connection_id,
                    (ChannelKey { hub_id: msg.hub_id, channel_id: msg.channel_id }),
                ),
            ),
    {
        let k = msg.connection_id;
        let key = ChannelKey { hub_id: msg.hub_id, channel_id: msg.channel_id };
        self.remove_conn_channel(k, key);
        self.remove_channel_conn(key, k);
        proof {
            assert forall|k2: u128, h2: ID|
                #[trigger] self.conn_hubs(k2).contains(h2) <==> #[trigger] self.hub_conns(
                    h2,
                ).contains(k2) by {
                assert(old(self).conn_hubs(k2).contains(h2) <==> old(self).hub_conns(h2).contains(
                    k2,
                ));
            }
            assert forall|k2: u128, key2: ChannelKey|
                #[trigger] self.conn_channels(k2).contains(key2) <==> #[trigger] self.channel_conns(
                    key2,
                ).contains(k2) by {
                assert(old(self).conn_channels(k2).contains(key2) <==> old(self).channel_conns(
                    key2,
                ).contains(k2));
            }
            assert(self.state().hubs =~= old(self).state().hubs);
            assert(self.state().channels =~= old(self).state().channels.remove((k, key)));
        }
    }

    /// The connections subscribed to a channel, each once.
    pub fn channel_subscribers(&self, hub_id: ID, channel_id: ID) -> (r: Vec<u128>)
        requires
            self.wf(),
        ensures
            r@.to_set() == Self::subscribers_of_channel(
                self.state(),
                (ChannelKey { hub_id, channel_id }),
            ),
            r@.no_duplicates(),
    {
        let key = ChannelKey { hub_id, channel_id };
        assert(self.channel_conns(key) =~= Self::subscribers_of_channel(self.state(), key));
        match self.subscribed_channels.get(&hub_id) {
            Some(inner) => match inner.get(&channel_id) {
                Some(conns) => set_to_vec(conns),
                None => {
                    let r: Vec<u128> = Vec::new();
                    assert(r@.to_set() =~= Set::<u128>::empty());
                    r
                },
            },
            None => {
                let r: Vec<u128> = Vec::new();
                assert(r@.to_set() =~= Set::<u128>::empty());
                r
            },
        }
    }

    /// The connections subscribed to a hub, each once.
    pub fn hub_subscribers(&self, hub_id: ID) -> (r: Vec<u128>)
        requires
            self.wf(),
        ensures
            r@.to_set() == Self::subscribers_of_hub(self.state(), hub_id),
            r@.no_duplicates(),
    {
        assert(self.hub_conns(hub_id) =~= Self::subscribers_of_hub(self.state(), hub_id));
        match self.subscribed_hubs.get(&hub_id) {
            Some(conns) => set_to_vec(conns),
            None => {
                let r: Vec<u128> = Vec::new();
                assert(r@.to_set() =~= Set::<u128>::empty());
                r
            },
        }
    }

    /// Whether connection `k` is connected.
    pub fn is_connected(&self, k: u128) -> (r: bool)
        ensures
            r == self.state().connected.contains(k),
    {
        self.connected.contains_key(&k)
    }

    /// The writer handle of connection `k`, if it is connected.
    pub fn writer_of(&self, k: u128) -> (r: Option<&W>)
        ensures
            match r {
                Some(w) => self.state().connected.contains(k) && *w == self.writer(k),
                None => !self.state().connected.contains(k),
            },
    {
        self.connected.get(&k)
    }

    /// The channels connection `k` is subscribed to.
    pub fn connection_channels(&self, k: u128) -> (r: Vec<ChannelKey>)
        ensures
            r@.to_set() == Set::new(|key: ChannelKey| self.state().channels.contains((k, key))),
    {
        let ghost target = Set::new(|key: ChannelKey| self.state().channels.contains((k, key)));
        match self.subscribed.get(&k) {
            Some(subs) => {
                let mut r: Vec<ChannelKey> = Vec::new();
                let mut i: usize = 0;
                while i < subs.channels.len()
                    invariant
                        i <= subs.channels.len(),
                        r@ == subs.channels@.take(i as int),
                    decreases subs.channels.len() - i,
                {
                    r.push(subs.channels[i]);
                    assert(r@ =~= subs.channels@.take(i + 1));
                    i = i + 1;
                }
                assert(r@ =~= subs.channels@);
                assert(r@.to_set() =~= target);
                r
            },
            None => {
                let r: Vec<ChannelKey> = Vec::new();
                assert(r@.to_set() =~= target);
                r
            },
        }
    }

    /// The hubs connection `k` is subscribed to.
    pub fn connection_hubs(&self, k: u128) -> (r: Vec<ID>)
        ensures
            r@.to_set() == Set::new(|h: ID| self.state().hubs.contains((k, h))),
    {
        let ghost target = Set::new(|h: ID| self.state().hubs.contains((k, h)));
        match self.subscribed.get(&k) {
            Some(subs) => {
                let r = subs.hubs.clone();
                assert(r@ =~= subs.hubs@);
                assert(r@.to_set() =~= target);
                r
            },
            None => {
                let r: Vec<ID> = Vec::new();
                assert(r@.to_set() =~= target);
                r
            },
        }
    }

    /// The typing notice for a user who may send messages in the channel, addressed to the
    /// channel's subscribers.
    pub fn start_typing(&self, msg: StartTyping, hub: &Hub) -> (r: Result<Broadcast>)
        requires
            self.wf(),
        ensures
            match r {
                Ok(b) => {
                    &&& hub.member_has_channel(
                        msg.user_id,
                        msg.channel_id,
                        ChannelPermission::SendMessage,
                    )
                    &&& b.message == (ServerMessage::UserStartedTyping {
                        user_id: msg.user_id,
                        hub_id: msg.hub_id,
                        channel_id: msg.channel_id,
                    })
                    &&& b.recipients@.to_set() == Self::subscribers_of_channel(
                        self.state(),
                        (ChannelKey { hub_id: msg.hub_id, channel_id: msg.channel_id }),
                    )
                    &&& b.recipients@.no_duplicates()
                },
                Err(e) => {
                    &&& e == if !hub.members@.contains_key(msg.user_id) {
                        Error::MemberNotFound
                    } else {
                        Error::MissingChannelPermission(ChannelPermission::SendMessage)
                    }
                    &&& !hub.member_has_channel(
                        msg.user_id,
                        msg.channel_id,
                        ChannelPermission::SendMessage,
                    )
                },
            },
    {
        if let Err(e) = Self::check_may_type(msg.user_id, msg.channel_id, hub) {
            return Err(e);
        }
        Ok(
            Broadcast {
                message: ServerMessage::UserStartedTyping {
                    user_id: msg.user_id,
                    hub_id: msg.hub_id,
                    channel_id: msg.channel_id,
                },
                recipients: self.channel_subscribers(msg.hub_id, msg.channel_id),
            },
        )
    }

    /// The notice that a user stopped typing, under the same conditions as [`Self::start_typing`].
    pub fn stop_typing(&self, msg: StopTyping, hub: &Hub) -> (r: Result<Broadcast>)
        requires
            self.wf(),
        ensures
            match r {
                Ok(b) => {
                    &&& hub.member_has_channel(
                        msg.user_id,
                        msg.channel_id,
                        ChannelPermission::SendMessage,
                    )
                    &&& b.message == (ServerMessage::UserStoppedTyping {
                        user_id: msg.user_id,
                        hub_id: msg.hub_id,
                        channel_id: msg.channel_id,
                    })
                    &&& b.recipients@.to_set() == Self::subscribers_of_channel(
                        self.state(),
                        (ChannelKey { hub_id: msg.hub_id, channel_id: msg.channel_id }),
                    )
                    &&& b.recipients@.no_duplicates()
                },
                Err(e) => {
                    &&& e == if !hub.members@.contains_key(msg.user_id) {
                        Error::MemberNotFound
                    } else {
                        Error::MissingChannelPermission(ChannelPermission::SendMessage)
                    }
                    &&& !hub.member_has_channel(
                        msg.user_id,
                        msg.channel_id,
                        ChannelPermission::SendMessage,
                    )
                },
            },
    {
        if let Err(e) = Self::check_may_type(msg.user_id, msg.channel_id, hub) {
            return Err(e);
        }
        Ok(
            Broadcast {
                message: ServerMessage::UserStoppedTyping {
                    user_id: msg.user_id,
                    hub_id: msg.hub_id,
                    channel_id: msg.channel_id,
                },
                recipients: self.channel_subscribers(msg.hub_id, msg.channel_id),
            },
        )
    }

    fn check_may_type(user: ID, channel: ID, hub: &Hub) -> (r: Result)
        ensures
            match r {
                Ok(_) => hub.member_has_channel(user, channel, ChannelPermission::SendMessage),
                Err(e) => {
                    &&& e == if !hub.members@.contains_key(user) {
                        Error::MemberNotFound
                    } else {
                        Error::MissingChannelPermission(ChannelPermission::SendMessage)
                    }
                    &&& !hub.member_has_channel(user, channel, ChannelPermission::SendMessage)
                },
            },
    {
        match hub.get_member(&user) {
            Ok(member) => {
                if member.has_channel_permission(&channel, &ChannelPermission::SendMessage, hub) {
                    Ok(())
                } else {
                    Err(Error::MissingChannelPermission(ChannelPermission::SendMessage))
                }
            },
            Err(e) => Err(e),
        }
    }

    /// What a notification asks for: a new message is handed to the indexer and its armoured
    /// form sent to the channel's subscribers; a hub update is sent to the hub's subscribers.
    pub fn notify(&self, notification: ServerNotification) -> (r: NotificationEffects)
        requires
            self.wf(),
        ensures
            match notification {
                ServerNotification::NewMessage(h, c, id, armoured, message) => {
                    &&& r.index == Some(
                        NewMessageForIndex { hub_id: h, channel_id: c, message: message },
                    )
                    &&& r.broadcast.message == (ServerMessage::ChatMessage {
                        hub_id: h,
                        channel_id: c,
                        message_id: id,
                        armoured_message: armoured,
                    })
                    &&& r.broadcast.recipients@.to_set() == Self::subscribers_of_channel(
                        self.state(),
                        (ChannelKey { hub_id: h, channel_id: c }),
                    )
                    &&& r.broadcast.recipients@.no_duplicates()
                },
                ServerNotification::HubUpdated(h, update_type) => {
                    &&& r.index.is_none()
                    &&& r.broadcast.message == (ServerMessage::HubUpdated {
                        hub_id: h,
                        update_type,
                    })
                    &&& r.broadcast.recipients@.to_set() == Self::subscribers_of_hub(
                        self.state(),
                        h,
                    )
                    &&& r.broadcast.recipients@.no_duplicates()
                },
            },
    {
        match notification {
            ServerNotification::NewMessage(hub_id, channel_id, message_id, armoured_message, message) => {
                let recipients = self.channel_subscribers(hub_id, channel_id);
                NotificationEffects {
                    index: Some(NewMessageForIndex { hub_id, channel_id, message }),
                    broadcast: Broadcast {
                        message: ServerMessage::ChatMessage {
                            hub_id,
                            channel_id,
                            message_id,
                            armoured_message,
                        },
                        recipients,
                    },
                }
            },
            ServerNotification::HubUpdated(hub_id, update_type) => {
                let recipients = self.hub_subscribers(hub_id);
                NotificationEffects {
                    index: None,
                    broadcast: Broadcast {
                        message: ServerMessage::HubUpdated { hub_id, update_type },
                        recipients,
                    },
                }
            },
        }
    }
}

/// Subscription symmetry: in every state the server's operations reach, a connection is
/// subscribed to a channel (hub) by its own index exactly when the channel's (hub's) index
/// lists the connection.
pub proof fn lemma_subscription_symmetry<W>(s: &Server<W>, k: u128, key: ChannelKey, h: ID)
    requires
        s.wf(),
    ensures
        s.conn_channels(k).contains(key) <==> s.channel_conns(key).contains(k),
        s.conn_hubs(k).contains(h) <==> s.hub_conns(h).contains(k),
{
}

} // verus!
