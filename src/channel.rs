use crate::ID;
use vstd::prelude::*;

verus! {

/// A chat message as stored in a channel log.
#[derive(Debug)]
pub struct Message {
    /// ID of the message.
    pub id: ID,
    /// User that sent the message.
    pub sender: ID,
    /// Milliseconds since the Unix epoch at which the message was created.
    pub created: u128,
    /// Text of the message.
    pub content: String,
}

/// Mathematical value of a [`Message`].
pub struct MessageView {
    pub id: ID,
    pub sender: ID,
    pub created: u128,
    pub content: Seq<char>,
}

impl View for Message {
    type V = MessageView;

    open spec fn view(&self) -> MessageView {
        MessageView {
            id: self.id,
            sender: self.sender,
            created: self.created,
            content: self.content@,
        }
    }
}

impl Message {
    /// A copy of the message.
    pub fn duplicate(&self) -> (r: Message)
        ensures
            r@ == self@,
    {
        Message {
            id: self.id,
            sender: self.sender,
            created: self.created,
            content: self.content.clone(),
        }
    }
}

/// The views of a sequence of messages.
pub open spec fn log_view(s: Seq<Message>) -> Seq<MessageView> {
    s.map_values(|m: Message| m@)
}

/// Index of the first message of `log` with ID `id`, if any.
pub open spec fn is_first_with_id(log: Seq<MessageView>, id: ID, i: int) -> bool {
    &&& 0 <= i < log.len()
    &&& log[i].id == id
    &&& forall|j: int| 0 <= j < i ==> log[j].id != id
}

/// The messages of `log` strictly after the first one with ID `id`; the whole log when no
/// message has that ID.
pub open spec fn messages_after(log: Seq<MessageView>, id: ID) -> Seq<MessageView> {
    if exists|i: int| is_first_with_id(log, id, i) {
        let i = choose|i: int| is_first_with_id(log, id, i);
        log.subrange(i + 1, log.len() as int)
    } else {
        log
    }
}

/// The first message with a given ID is unique.
pub proof fn lemma_first_with_id_unique(log: Seq<MessageView>, id: ID, i: int, k: int)
    requires
        is_first_with_id(log, id, i),
        is_first_with_id(log, id, k),
    ensures
        i == k,
{
    if i < k {
        assert(log[i].id != id);
    } else if k < i {
        assert(log[k].id != id);
    }
}

/// Catching up from a journal misses no message: when the journaled ID is in the log, the
/// messages up to and including it followed by `messages_after` are the whole log; when it is
/// not, `messages_after` is the whole log.
pub proof fn lemma_catch_up_covers_log(log: Seq<MessageView>, id: ID)
    ensures
        forall|i: int|
            is_first_with_id(log, id, i) ==> log == log.take(i + 1) + messages_after(log, id),
        !(exists|i: int| is_first_with_id(log, id, i)) ==> messages_after(log, id) == log,
{
    assert forall|i: int|
        is_first_with_id(log, id, i) implies log == log.take(i + 1) + messages_after(log, id) by {
        let k = choose|k: int| is_first_with_id(log, id, k);
        lemma_first_with_id_unique(log, id, i, k);
        assert(log =~= log.take(i + 1) + log.subrange(i + 1, log.len() as int));
    }
}

/// A channel in a hub, with its append-only message log.
#[derive(Debug)]
pub struct Channel {
    /// ID of the channel.
    pub id: ID,
    /// ID of the hub the channel is in.
    pub hub_id: ID,
    /// Name of the channel.
    pub name: String,
    /// Milliseconds since the Unix epoch at which the channel was created.
    pub created: u128,
    /// Messages of the channel, in order of insertion.
    pub messages: Vec<Message>,
}

impl Channel {
    /// The channel's log as a sequence of message values.
    pub open spec fn log(&self) -> Seq<MessageView> {
        log_view(self.messages@)
    }

    /// Creates an empty channel.
    pub fn new(name: String, id: ID, hub_id: ID) -> (r: Channel)
        ensures
            r.id == id,
            r.hub_id == hub_id,
            r.name@ == name@,
            r.log() == Seq::<MessageView>::empty(),
    {
        let r = Channel { id, hub_id, name, created: crate::get_system_millis(), messages: Vec::new() };
        assert(r.log() =~= Seq::<MessageView>::empty());
        r
    }

    /// A copy of the channel and its log.
    pub fn duplicate(&self) -> (r: Channel)
        ensures
            r.id == self.id,
            r.hub_id == self.hub_id,
            r.name@ == self.name@,
            r.created == self.created,
            r.log() == self.log(),
    {
        let mut messages: Vec<Message> = Vec::new();
        let mut i: usize = 0;
        while i < self.messages.len()
            invariant
                i <= self.messages.len(),
                messages@.len() == i,
                forall|k: int| 0 <= k < i ==> messages@[k]@ == self.messages@[k]@,
            decreases self.messages.len() - i,
        {
            messages.push(self.messages[i].duplicate());
            i = i + 1;
        }
        assert(log_view(messages@) =~= log_view(self.messages@));
        Channel {
            id: self.id,
            hub_id: self.hub_id,
            name: self.name.clone(),
            created: self.created,
            messages,
        }
    }

    /// Appends a message at the end of the log.
    pub fn add_message(&mut self, message: Message)
        ensures
            final(self).log() == old(self).log().push(message@),
            final(self).id == old(self).id,
            final(self).hub_id == old(self).hub_id,
            final(self).name == old(self).name,
            final(self).created == old(self).created,
    {
        self.messages.push(message);
        assert(final(self).log() =~= old(self).log().push(message@));
    }

    /// The messages strictly after the first one with ID `last_id`, in log order; the whole
    /// log when no message has that ID.
    pub fn get_all_messages_from(&self, last_id: ID) -> (r: Vec<Message>)
        ensures
            log_view(r@) == messages_after(self.log(), last_id),
    {
        let n = self.messages.len();
        let mut i: usize = 0;
        while i < n && self.messages[i].id != last_id
            invariant
                n == self.messages.len(),
                i <= n,
                forall|j: int| 0 <= j < i ==> self.log()[j].id != last_id,
            decreases n - i,
        {
            i = i + 1;
        }
        let start: usize = if i < n {
            i + 1
        } else {
            0
        };
        proof {
            if i < n {
                assert(is_first_with_id(self.log(), last_id, i as int));
                let k = choose|k: int| is_first_with_id(self.log(), last_id, k);
                lemma_first_with_id_unique(self.log(), last_id, i as int, k);
            } else {
                assert forall|k: int| !is_first_with_id(self.log(), last_id, k) by {
                    if 0 <= k < n {
                        assert(self.log()[k].id != last_id);
                    }
                }
            }
        }
        let mut r: Vec<Message> = Vec::new();
        let mut j: usize = start;
        while j < n
            invariant
                n == self.messages.len(),
                start <= j <= n,
                r@.len() == j - start,
                forall|k: int| 0 <= k < r@.len() ==> r@[k]@ == self.messages@[start + k]@,
            decreases n - j,
        {
            r.push(self.messages[j].duplicate());
            j = j + 1;
        }
        assert(log_view(r@) =~= self.log().subrange(start as int, n as int));
        assert(self.log().subrange(0, n as int) =~= self.log());
        r
    }
}

} // verus!
