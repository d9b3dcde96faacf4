use vstd::prelude::*;
use vstd::string::*;

use crate::pairs::{lookup, pairs_view, push_pair, table_of};
use crate::text::{decimal_of, parse_u64};

verus! {

/// A chat-platform message: its id, text, author and channel.
pub struct DiscordMsg {
    pub id: String,
    pub body: String,
    pub author: String,
    pub channel: String,
}

impl DiscordMsg {
    /// The empty message, which stands for "nothing to deliver".
    pub open spec fn is_blank(&self) -> bool {
        &&& self.id@.len() == 0
        &&& self.body@.len() == 0
        &&& self.author@.len() == 0
        &&& self.channel@.len() == 0
    }

    /// Whether the two messages hold the same texts.
    pub open spec fn same_as(&self, o: &DiscordMsg) -> bool {
        &&& self.id@ == o.id@
        &&& self.body@ == o.body@
        &&& self.author@ == o.author@
        &&& self.channel@ == o.channel@
    }

    pub fn new() -> (r: DiscordMsg)
        ensures
            r.is_blank(),
    {
        DiscordMsg {
            id: String::new(),
            body: String::new(),
            author: String::new(),
            channel: String::new(),
        }
    }
}

impl Clone for DiscordMsg {
    fn clone(&self) -> (r: DiscordMsg)
        ensures
            r.same_as(self),
    {
        DiscordMsg {
            id: self.id.clone(),
            body: self.body.clone(),
            author: self.author.clone(),
            channel: self.channel.clone(),
        }
    }
}

/// A single-slot exchange between two event loops: a write replaces whatever was not
/// yet taken, and a take empties the slot.
pub struct Mailbox {
    pub slot: DiscordMsg,
}

impl Mailbox {
    pub fn new() -> (r: Mailbox)
        ensures
            r.slot.is_blank(),
    {
        Mailbox { slot: DiscordMsg::new() }
    }

    /// Whether a message with a body waits in the slot.
    pub fn has_message(&self) -> (r: bool)
        ensures
            r == (self.slot.body@.len() > 0),
    {
        self.slot.body.as_str().unicode_len() > 0
    }

    /// Writes `msg`, replacing the message in the slot.
    pub fn put(&mut self, msg: DiscordMsg)
        ensures
            *final(self) == after_put(*old(self), msg),
    {
        self.slot = msg;
    }

    /// Takes the message in the slot and leaves the slot blank.
    pub fn take(&mut self) -> (r: DiscordMsg)
        ensures
            r == taken(*old(self)),
            final(self).slot.is_blank(),
    {
        let mut out = DiscordMsg::new();
        std::mem::swap(&mut out, &mut self.slot);
        out
    }
}

/// The mailbox after a write of `msg`.
pub open spec fn after_put(m: Mailbox, msg: DiscordMsg) -> Mailbox {
    Mailbox { slot: msg }
}

/// What a take returns from the mailbox.
pub open spec fn taken(m: Mailbox) -> DiscordMsg {
    m.slot
}

pub open spec fn help_command() -> Seq<char> {
    "/help"@
}

/// The usage text that answers `/help` on the chat side.
pub open spec fn usage_text() -> Seq<char> {
    USAGE@
}

pub const USAGE: &'static str = "Hi! I'm RORI, a free distributed chatterbot.\nIf you want to use this instance as another user.\nThis is some commands:\n/register <username> for registering a user\n/unregister for unregistering a user\n/add_device <device_name> [id] for giving a name to a device\n/rm_device <device_name> [id] for removing a device\n/link <id|username> for adding a new device to a user";

/// Routes a message received on the chat side: `/help` is answered locally with the usage
/// text and leaves the mailbox as it is; anything else is written to the mailbox.
pub fn route_chat_message(mailbox: &mut Mailbox, msg: DiscordMsg) -> (r: Option<String>)
    ensures
        msg.body@ == help_command() ==> (r matches Some(t) && t@ == usage_text()),
        msg.body@ == help_command() ==> *final(mailbox) == *old(mailbox),
        msg.body@ != help_command() ==> r is None,
        msg.body@ != help_command() ==> *final(mailbox) == after_put(*old(mailbox), msg),
{
    if msg.body == String::from_str("/help") {
        Some(String::from_str(USAGE))
    } else {
        mailbox.put(msg);
        None
    }
}

pub open spec fn text_plain() -> Seq<char> {
    "text/plain"@
}

pub open spec fn rori_message() -> Seq<char> {
    "rori/message"@
}

/// Whether a payload key carries the message body rather than metadata.
pub open spec fn is_content_key(k: Seq<char>) -> bool {
    k == text_plain() || k == rori_message()
}

/// The metadata pairs of a payload: every pair whose key is not a content key.
pub open spec fn metadata_of(p: Seq<(Seq<char>, Seq<char>)>) -> Seq<(Seq<char>, Seq<char>)>
    decreases p.len(),
{
    if p.len() == 0 {
        p
    } else if is_content_key(p.last().0) {
        metadata_of(p.drop_last())
    } else {
        metadata_of(p.drop_last()).push(p.last())
    }
}

/// The latest content pair of a payload, if any.
pub open spec fn content_of(p: Seq<(Seq<char>, Seq<char>)>) -> Option<(Seq<char>, Seq<char>)>
    decreases p.len(),
{
    if p.len() == 0 {
        None
    } else if is_content_key(p.last().0) {
        Some(p.last())
    } else {
        content_of(p.drop_last())
    }
}

/// One message received from the federated network.
pub struct Interaction {
    pub author_ring_id: String,
    pub body: String,
    pub datatype: String,
    /// Seconds since the Unix epoch at reception.
    pub time: i64,
    pub metadatas: Vec<(String, String)>,
}

impl Interaction {
    /// The metadata as a map.
    pub open spec fn metadata_map(&self) -> Map<Seq<char>, Seq<char>> {
        table_of(pairs_view(self.metadatas@))
    }

    /// Builds an interaction from a received payload: the latest `text/plain` or
    /// `rori/message` pair gives the datatype and the body, every other pair is metadata.
    pub fn from_payloads(author_ring_id: String, payloads: &Vec<(String, String)>, time: i64) -> (r:
        Interaction)
        ensures
            r.author_ring_id == author_ring_id,
            r.time == time,
            content_of(pairs_view(payloads@)) matches Some(c) ==> r.datatype@ == c.0 && r.body@
                == c.1,
            content_of(pairs_view(payloads@)) is None ==> r.datatype@.len() == 0 && r.body@.len()
                == 0,
            pairs_view(r.metadatas@) == metadata_of(pairs_view(payloads@)),
    {
        let ghost all = pairs_view(payloads@);
        let plain = String::from_str("text/plain");
        let message = String::from_str("rori/message");
        let mut body = String::new();
        let mut datatype = String::new();
        let mut metadatas: Vec<(String, String)> = Vec::new();
        let mut i: usize = 0;
        while i < payloads.len()
            invariant
                0 <= i <= payloads@.len(),
                all == pairs_view(payloads@),
                plain@ == text_plain(),
                message@ == rori_message(),
                content_of(all.subrange(0, i as int)) matches Some(c) ==> datatype@ == c.0
                    && body@ == c.1,
                content_of(all.subrange(0, i as int)) is None ==> datatype@.len() == 0
                    && body@.len() == 0,
                pairs_view(metadatas@) == metadata_of(all.subrange(0, i as int)),
            decreases payloads@.len() - i,
        {
            assert(all.subrange(0, i + 1).drop_last() =~= all.subrange(0, i as int));
            let key = &payloads[i].0;
            if *key == plain || *key == message {
                datatype = key.clone();
                body = payloads[i].1.clone();
            } else {
                push_pair(&mut metadatas, key.clone(), payloads[i].1.clone());
            }
            i = i + 1;
        }
        assert(all.subrange(0, all.len() as int) =~= all);
        Interaction { author_ring_id, body, datatype, time, metadatas }
    }

    /// The latest metadata value for `key`, if any.
    pub fn metadata(&self, key: &String) -> (r: Option<String>)
        ensures
            r is Some == self.metadata_map().contains_key(key@),
            r matches Some(x) ==> x@ == self.metadata_map()[key@],
    {
        lookup(&self.metadatas, key)
    }
}

/// The chat channel that a destination names by number: `None` for a destination that is
/// no number or is zero, which stands for the default channel.
pub fn channel_id_of(destination: &str) -> (r: Option<u64>)
    ensures
        r matches Some(v) ==> v != 0 && decimal_of(destination@) == Some(v as nat),
        r is None ==> (decimal_of(destination@) matches Some(v) ==> v == 0 || v > u64::MAX),
{
    match parse_u64(destination) {
        Some(v) => if v != 0 {
            Some(v)
        } else {
            None
        },
        None => None,
    }
}

/// Whether a channel is the default destination: `general` on the server `RORI`.
pub fn is_default_channel(server_name: &str, channel_name: &str) -> (r: bool)
    ensures
        r == (server_name@ == "RORI"@ && channel_name@ == "general"@),
{
    String::from_str(server_name) == String::from_str("RORI") && String::from_str(channel_name)
        == String::from_str("general")
}

/// A signal of the federated network's daemon.
pub enum Signal {
    AccountsChanged,
    RegistrationStateChanged { account_id: String, state: String },
    IncomingTrustRequest { account_id: String, from: String },
    IncomingAccountMessage { account_id: String, interaction: Interaction },
    /// Anything the bridge does not act on.
    Other,
}

} // verus!
