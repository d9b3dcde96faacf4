use vstd::prelude::*;
use vstd::string::*;

use crate::directory::{
    committed, has_id, has_username, id_in, lemma_absent_resolves_empty,
    lemma_commit_keeps_others, lemma_commit_then_lookup, lemma_remove_absent,
    lemma_remove_drops_name, lemma_remove_keeps_others, username_in,
    without_username, Database, Row, StorageError,
};
use crate::json::{confirmation_of, decode_confirmation};
use crate::account::Account;
use crate::message::{after_put, rori_message, taken, DiscordMsg, Interaction, Mailbox, Signal};
use crate::pairs::{pairs_view, push_pair};
use crate::text::{
    command_word, first_token, first_token_of, is_command, is_space, lemma_register_body,
    register_word,
    second_token, second_token_of, unregister_word,
};
use crate::transactions::Transactions;

verus! {

/// A flat payload for the federated network: (key, value) pairs.
pub type Payload = Vec<(String, String)>;

pub open spec fn rori_command() -> Seq<char> {
    "rori/command"@
}

/// The username that a `/register` body asks for: its second token, when it has a
/// non-empty one.
pub open spec fn register_target(body: Seq<char>) -> Option<Seq<char>> {
    match second_token(body) {
        Some(u) => if u.len() > 0 {
            Some(u)
        } else {
            None
        },
        None => None,
    }
}

/// Whether `u` has a committed record in the directory.
pub open spec fn is_committed(db: Seq<Row>, u: Seq<char>) -> bool {
    has_username(db, u)
}

/// Whether a chat message is forwarded to the federated network, given the directory and
/// the pending requests. A `/register` from a requester without a username is forwarded
/// only for a free username; one from a requester with a username is dropped, and so is
/// an `/unregister` from a requester without one.
pub open spec fn forwards(
    db: Seq<Row>,
    pending: Map<Seq<char>, Seq<char>>,
    msg: DiscordMsg,
) -> bool {
    let body = msg.body@;
    let username = username_in(db, msg.author@);
    if body.len() == 0 {
        false
    } else if !is_command(body) {
        true
    } else if username.len() > 0 {
        first_token(body) != register_word()
    } else if first_token(body) == register_word() {
        match register_target(body) {
            Some(u) => !is_committed(db, u) && !pending.contains_key(u),
            None => false,
        }
    } else {
        first_token(body) != unregister_word()
    }
}

/// Whether forwarding the message opens a registration request.
pub open spec fn opens_request(
    db: Seq<Row>,
    pending: Map<Seq<char>, Seq<char>>,
    msg: DiscordMsg,
) -> bool {
    &&& forwards(db, pending, msg)
    &&& is_command(msg.body@)
    &&& username_in(db, msg.author@).len() == 0
    &&& first_token(msg.body@) == register_word()
}

/// The pending requests after handling a chat message.
pub open spec fn pending_after_chat(
    db: Seq<Row>,
    pending: Map<Seq<char>, Seq<char>>,
    msg: DiscordMsg,
) -> Map<Seq<char>, Seq<char>> {
    if opens_request(db, pending, msg) {
        pending.insert(register_target(msg.body@)->Some_0, msg.author@)
    } else {
        pending
    }
}

/// The datatype under which a chat body is forwarded.
pub open spec fn datatype_for(body: Seq<char>) -> Seq<char> {
    if is_command(body) {
        rori_command()
    } else {
        "text/plain"@
    }
}

/// The payload that forwards `msg` from a sender whose committed username is `username`.
pub open spec fn payload_for(msg: DiscordMsg, username: Seq<char>) -> Seq<(Seq<char>, Seq<char>)> {
    seq![
        (datatype_for(msg.body@), msg.body@),
        ("sa"@, username),
        ("th"@, msg.id@),
        ("ch"@, msg.channel@),
    ]
}

/// The pending requests after a confirmation for `u`.
pub open spec fn pending_after_confirmation(
    pending: Map<Seq<char>, Seq<char>>,
    u: Seq<char>,
) -> Map<Seq<char>, Seq<char>> {
    if pending.contains_key(u) {
        pending.remove(u)
    } else {
        pending
    }
}

/// The directory after a confirmation `{username: u, registered}`: a positive one commits
/// the pending request for `u`; a negative one for a username without a pending request
/// removes its record.
pub open spec fn directory_after_confirmation(
    db: Seq<Row>,
    pending: Map<Seq<char>, Seq<char>>,
    u: Seq<char>,
    registered: bool,
) -> Seq<Row> {
    if registered && pending.contains_key(u) {
        committed(db, pending[u], u)
    } else if !registered && !pending.contains_key(u) {
        without_username(db, u)
    } else {
        db
    }
}

/// The registration confirmation that an interaction received on `account_id` carries for
/// the bridge whose account id is `own_id`, if any.
pub open spec fn confirmation_in(
    own_id: Seq<char>,
    account_id: Seq<char>,
    i: Interaction,
) -> Option<(Seq<char>, bool)> {
    if account_id == own_id && i.datatype@ == rori_message() {
        confirmation_of(i.body@)
    } else {
        None
    }
}

/// Whether an interaction received on `account_id` is delivered to the chat side.
pub open spec fn delivers(own_id: Seq<char>, account_id: Seq<char>, i: Interaction) -> bool {
    account_id == own_id && i.datatype@ != rori_message()
}

/// The chat channel that an interaction names in its `ch` metadata, or the empty text
/// (the chat side's default channel).
pub open spec fn channel_of(i: Interaction) -> Seq<char> {
    if i.metadata_map().contains_key("ch"@) {
        i.metadata_map()["ch"@]
    } else {
        Seq::empty()
    }
}

/// The outcome that a confirmation `{username: u, registered}` reports.
pub open spec fn reports_confirmation(
    db: Seq<Row>,
    pending: Map<Seq<char>, Seq<char>>,
    u: Seq<char>,
    registered: bool,
    r: Outcome,
) -> bool {
    if registered && pending.contains_key(u) {
        let id = pending[u];
        if has_id(db, id) {
            (r matches Outcome::CommitRefused { id: i, username: n, error: e } && i@ == id && n@
                == u && e == StorageError::Conflict)
        } else {
            (r matches Outcome::Committed { id: i, username: n } && i@ == id && n@ == u)
        }
    } else if registered {
        r is Nothing
    } else if pending.contains_key(u) {
        (r matches Outcome::Rejected { username: n } && n@ == u)
    } else {
        (r matches Outcome::Removed { username: n } && n@ == u)
    }
}

/// The outcome of an interaction received on `account_id`, for the bridge whose account id
/// is `own_id`.
pub open spec fn reports_interaction(
    db: Seq<Row>,
    pending: Map<Seq<char>, Seq<char>>,
    own_id: Seq<char>,
    account_id: Seq<char>,
    i: Interaction,
    r: Outcome,
) -> bool {
    if delivers(own_id, account_id, i) {
        (r matches Outcome::Deliver(m) && m.body@ == i.body@ && m.channel@ == channel_of(i)
            && m.id@.len() == 0 && m.author@.len() == 0)
    } else {
        match confirmation_in(own_id, account_id, i) {
            Some(c) => reports_confirmation(db, pending, c.0, c.1, r),
            None => r is Nothing,
        }
    }
}

/// The pending requests after an interaction.
pub open spec fn pending_after_interaction(
    pending: Map<Seq<char>, Seq<char>>,
    own_id: Seq<char>,
    account_id: Seq<char>,
    i: Interaction,
) -> Map<Seq<char>, Seq<char>> {
    match confirmation_in(own_id, account_id, i) {
        Some(c) => pending_after_confirmation(pending, c.0),
        None => pending,
    }
}

/// The directory after an interaction.
pub open spec fn directory_after_interaction(
    db: Seq<Row>,
    pending: Map<Seq<char>, Seq<char>>,
    own_id: Seq<char>,
    account_id: Seq<char>,
    i: Interaction,
) -> Seq<Row> {
    match confirmation_in(own_id, account_id, i) {
        Some(c) => directory_after_confirmation(db, pending, c.0, c.1),
        None => db,
    }
}

/// What handling a chat message asks of the network side: `None` when it is dropped.
pub open spec fn forwarded_payload(
    db: Seq<Row>,
    pending: Map<Seq<char>, Seq<char>>,
    msg: DiscordMsg,
) -> Option<Seq<(Seq<char>, Seq<char>)>> {
    if forwards(db, pending, msg) {
        Some(payload_for(msg, username_in(db, msg.author@)))
    } else {
        None
    }
}

/// The interaction that a signal carries, with the daemon account it came on.
pub open spec fn message_of(signal: Signal) -> Option<(Seq<char>, Interaction)> {
    match signal {
        Signal::IncomingAccountMessage { account_id, interaction } => Some(
            (account_id@, interaction),
        ),
        _ => None,
    }
}

/// The outcome that handling a signal reports.
pub open spec fn reports_signal(
    db: Seq<Row>,
    pending: Map<Seq<char>, Seq<char>>,
    own_id: Seq<char>,
    signal: Signal,
    r: Outcome,
) -> bool {
    match message_of(signal) {
        Some(m) => reports_interaction(db, pending, own_id, m.0, m.1, r),
        None => r is Nothing,
    }
}

/// The pending requests after a signal.
pub open spec fn pending_after_signal(
    pending: Map<Seq<char>, Seq<char>>,
    own_id: Seq<char>,
    signal: Signal,
) -> Map<Seq<char>, Seq<char>> {
    match message_of(signal) {
        Some(m) => pending_after_interaction(pending, own_id, m.0, m.1),
        None => pending,
    }
}

/// The directory after a signal.
pub open spec fn directory_after_signal(
    db: Seq<Row>,
    pending: Map<Seq<char>, Seq<char>>,
    own_id: Seq<char>,
    signal: Signal,
) -> Seq<Row> {
    match message_of(signal) {
        Some(m) => directory_after_interaction(db, pending, own_id, m.0, m.1),
        None => db,
    }
}

/// A `/register u` from a requester without a username, for a username `u` that has no
/// committed record and no pending request, opens exactly one pending request `(u,
/// requester)` and forwards exactly one `rori/command` payload.
pub proof fn lemma_register_free_username(
    db: Seq<Row>,
    pending: Map<Seq<char>, Seq<char>>,
    msg: DiscordMsg,
    u: Seq<char>,
)
    requires
        u.len() > 0,
        forall|k: int| 0 <= k < u.len() ==> !is_space(#[trigger] u[k]),
        msg.body@ == register_word() + seq![' '] + u,
        username_in(db, msg.author@).len() == 0,
        !is_committed(db, u),
        !pending.contains_key(u),
    ensures
        forwarded_payload(db, pending, msg) == Some(payload_for(msg, Seq::<char>::empty())),
        datatype_for(msg.body@) == rori_command(),
        pending_after_chat(db, pending, msg) == pending.insert(u, msg.author@),
{
    lemma_register_body(u);
    assert(msg.body@.len() > 0);
    assert(username_in(db, msg.author@) =~= Seq::<char>::empty());
    assert(register_target(msg.body@) == Some(u));
}

/// A `/register u` for a username `u` that is committed or already pending forwards
/// nothing and leaves the pending requests as they are (the directory is never changed
/// by a chat message).
pub proof fn lemma_register_taken_username(
    db: Seq<Row>,
    pending: Map<Seq<char>, Seq<char>>,
    msg: DiscordMsg,
    u: Seq<char>,
)
    requires
        u.len() > 0,
        forall|k: int| 0 <= k < u.len() ==> !is_space(#[trigger] u[k]),
        msg.body@ == register_word() + seq![' '] + u,
        is_committed(db, u) || pending.contains_key(u),
    ensures
        forwarded_payload(db, pending, msg) is None,
        pending_after_chat(db, pending, msg) == pending,
{
    lemma_register_body(u);
}

/// A positive confirmation for a pending request `(u, r)` commits `(r, u)` once and clears
/// the request; the new record is the only one for `u`, and the directory then resolves
/// `u` to `r` and `r` to `u`.
pub proof fn lemma_confirm_commits(
    db: Seq<Row>,
    pending: Map<Seq<char>, Seq<char>>,
    u: Seq<char>,
    r: Seq<char>,
)
    requires
        consistent(db, pending),
        pending.contains_key(u),
        pending[u] == r,
        !has_id(db, r),
    ensures
        !has_username(db, u),
        directory_after_confirmation(db, pending, u, true) == db.push((r, u)),
        pending_after_confirmation(pending, u) == pending.remove(u),
        !pending_after_confirmation(pending, u).contains_key(u),
        id_in(directory_after_confirmation(db, pending, u, true), u) == r,
        username_in(directory_after_confirmation(db, pending, u, true), r) == u,
{
    lemma_commit_then_lookup(db, r, u);
}

/// A negative confirmation for a pending request clears it and leaves the directory as it
/// is: the username still resolves to no platform user id.
pub proof fn lemma_reject_clears(db: Seq<Row>, pending: Map<Seq<char>, Seq<char>>, u: Seq<char>)
    requires
        consistent(db, pending),
        pending.contains_key(u),
    ensures
        directory_after_confirmation(db, pending, u, false) == db,
        !has_username(directory_after_confirmation(db, pending, u, false), u),
        id_in(directory_after_confirmation(db, pending, u, false), u).len() == 0,
        pending_after_confirmation(pending, u) == pending.remove(u),
{
    lemma_absent_resolves_empty(db, u);
}

/// A confirmation for a username without a pending request changes neither the pending
/// requests nor the directory, unless it is a negative one for a username with records,
/// which removes them.
pub proof fn lemma_unknown_confirmation(
    db: Seq<Row>,
    pending: Map<Seq<char>, Seq<char>>,
    u: Seq<char>,
    registered: bool,
)
    requires
        !pending.contains_key(u),
        registered || forall|k: int| 0 <= k < db.len() ==> #[trigger] db[k].1 != u,
    ensures
        directory_after_confirmation(db, pending, u, registered) == db,
        pending_after_confirmation(pending, u) == pending,
{
    if !registered {
        lemma_remove_absent(db, u);
    }
}

/// Two chat messages written to the mailbox before one take: the take yields the second,
/// and what is forwarded is what the second alone gives.
pub proof fn lemma_burst_keeps_last(
    db: Seq<Row>,
    pending: Map<Seq<char>, Seq<char>>,
    m: Mailbox,
    first: DiscordMsg,
    second: DiscordMsg,
)
    ensures
        taken(after_put(after_put(m, first), second)) == second,
        forwarded_payload(db, pending, taken(after_put(after_put(m, first), second)))
            == forwarded_payload(db, pending, second),
{
}

/// No username is both pending and committed: a pending request is only opened for a
/// username without a committed record, and a commit clears the request.
pub open spec fn consistent(db: Seq<Row>, pending: Map<Seq<char>, Seq<char>>) -> bool {
    forall|u: Seq<char>| #[trigger] pending.contains_key(u) ==> !is_committed(db, u)
}

/// Handling a chat message keeps the directory and the pending requests consistent.
pub proof fn lemma_chat_keeps_consistent(
    db: Seq<Row>,
    pending: Map<Seq<char>, Seq<char>>,
    msg: DiscordMsg,
)
    requires
        consistent(db, pending),
    ensures
        consistent(db, pending_after_chat(db, pending, msg)),
{
}

/// Handling a confirmation keeps the directory and the pending requests consistent.
pub proof fn lemma_confirmation_keeps_consistent(
    db: Seq<Row>,
    pending: Map<Seq<char>, Seq<char>>,
    u: Seq<char>,
    registered: bool,
)
    requires
        consistent(db, pending),
    ensures
        consistent(
            directory_after_confirmation(db, pending, u, registered),
            pending_after_confirmation(pending, u),
        ),
{
    let db2 = directory_after_confirmation(db, pending, u, registered);
    let p2 = pending_after_confirmation(pending, u);
    assert forall|v: Seq<char>| #[trigger] p2.contains_key(v) implies !is_committed(db2, v) by {
        assert(v != u || !pending.contains_key(u));
        if registered && pending.contains_key(u) {
            lemma_commit_keeps_others(db, pending[u], u, v);
        } else if !registered && !pending.contains_key(u) {
            assert(v != u);
            lemma_remove_keeps_others(db, u, v);
        }
    }
}

/// What handling a signal asks of the world around the bridge.
pub enum Outcome {
    /// Nothing to do.
    Nothing,
    /// Deliver this message on the chat platform.
    Deliver(DiscordMsg),
    /// The directory committed `(id, username)`; persist it.
    Committed { id: String, username: String },
    /// The directory refused `(id, username)`: `id` was already mapped.
    CommitRefused { id: String, username: String, error: StorageError },
    /// The pending request for `username` was rejected by the network.
    Rejected { username: String },
    /// The records for `username` were removed; persist it.
    Removed { username: String },
}

/// Why the bridge cannot start.
#[derive(Debug, Clone, Copy, PartialEq, Eq, Structural)]
pub enum InitError {
    /// The account has no network address.
    NoRingId,
}

/// The bridge orchestrator: the bridge's network account, the identity directory and the
/// pending registration requests.
pub struct Endpoint {
    account: Account,
    rori_ring_id: String,
    current_transactions: Transactions,
    database: Database,
}

impl Endpoint {
    /// The committed identity records.
    pub closed spec fn directory(&self) -> Seq<Row> {
        self.database@
    }

    /// The pending registration requests: username to requester.
    pub closed spec fn pending(&self) -> Map<Seq<char>, Seq<char>> {
        self.current_transactions@
    }

    /// The bridge's own network account.
    pub closed spec fn own_account(&self) -> Account {
        self.account
    }

    /// The orchestrator's invariant: no username is both pending and committed.
    pub open spec fn wf(&self) -> bool {
        consistent(self.directory(), self.pending())
    }

    /// The network address of the bridge's peer.
    pub closed spec fn peer(&self) -> Seq<char> {
        self.rori_ring_id@
    }

    /// Starts the orchestrator on `account`; fails when the account has no network address.
    pub fn init(account: Account, rori_ring_id: &str, database: Database) -> (r: Result<
        Endpoint,
        InitError,
    >)
        ensures
            r is Err <==> account.ring_id@.len() == 0,
            r matches Err(e) ==> e == InitError::NoRingId,
            r matches Ok(m) ==> {
                &&& m.own_account() == account
                &&& m.peer() == rori_ring_id@
                &&& m.directory() == database@
                &&& m.pending() == Map::<Seq<char>, Seq<char>>::empty()
                &&& m.wf()
            },
    {
        if account.ring_id.as_str().unicode_len() == 0 {
            return Err(InitError::NoRingId);
        }
        Ok(
            Endpoint {
                account,
                rori_ring_id: String::from_str(rori_ring_id),
                current_transactions: Transactions::new(),
                database,
            },
        )
    }

    /// The bridge's own network account.
    pub fn account(&self) -> (r: &Account)
        ensures
            *r == self.own_account(),
    {
        &self.account
    }

    /// The network address of the bridge's peer.
    pub fn rori_ring_id(&self) -> (r: &String)
        ensures
            r@ == self.peer(),
    {
        &self.rori_ring_id
    }

    /// The identity directory.
    pub fn database(&self) -> (r: &Database)
        ensures
            r@ == self.directory(),
    {
        &self.database
    }

    /// The requester of the pending request for `username`, if any.
    pub fn pending_requester(&self, username: &String) -> (r: Option<String>)
        ensures
            r is Some == self.pending().contains_key(username@),
            r matches Some(id) ==> id@ == self.pending()[username@],
    {
        self.current_transactions.get(username)
    }

    /// The first order sent to the peer: `{"rori/command": "/bridgify"}`.
    pub fn bridgify(&self) -> (r: Payload)
        ensures
            pairs_view(r@) == seq![(rori_command(), "/bridgify"@)],
    {
        let mut p: Payload = Vec::new();
        push_pair(&mut p, String::from_str("rori/command"), String::from_str("/bridgify"));
        assert(pairs_view(p@) =~= seq![(rori_command(), "/bridgify"@)]);
        p
    }

    /// Whether `text` is a command of the network: its first token is one of `/register`,
    /// `/unregister`, `/add_device`, `/rm_device`, `/link`.
    pub fn is_a_command(&self, text: &String) -> (r: bool)
        ensures
            r == is_command(text@),
    {
        command_word(text.as_str())
    }

    /// Handles a message taken from the chat side: applies the registration rules and
    /// returns the payload to forward, if any.
    pub fn handle_user_message(&mut self, msg: DiscordMsg) -> (r: Option<Payload>)
        requires
            old(self).wf(),
        ensures
            final(self).wf(),
            r is Some == forwards(old(self).directory(), old(self).pending(), msg),
            r matches Some(p) ==> pairs_view(p@) == payload_for(
                msg,
                username_in(old(self).directory(), msg.author@),
            ),
            final(self).pending() == pending_after_chat(
                old(self).directory(),
                old(self).pending(),
                msg,
            ),
            final(self).directory() == old(self).directory(),
            final(self).own_account() == old(self).own_account(),
            final(self).peer() == old(self).peer(),
    {
        proof {
            lemma_chat_keeps_consistent(self.directory(), self.pending(), msg);
        }
        if msg.body.as_str().unicode_len() == 0 {
            return None;
        }
        let username = self.database.username(&msg.author);
        let command = command_word(msg.body.as_str());
        if command {
            let first = first_token_of(msg.body.as_str());
            let is_register = first == String::from_str("/register");
            if username.as_str().unicode_len() == 0 {
                if is_register {
                    match second_token_of(msg.body.as_str()) {
                        Some(u) => {
                            if u.as_str().unicode_len() == 0 {
                                return None;
                            }
                            if self.database.contains_username(&u)
                                || self.current_transactions.contains(&u) {
                                return None;
                            }
                            self.current_transactions.insert(u, msg.author.clone());
                        },
                        None => {
                            return None;
                        },
                    }
                } else if first == String::from_str("/unregister") {
                    return None;
                }
            } else if is_register {
                return None;
            }
        }
        let datatype = if command {
            String::from_str("rori/command")
        } else {
            String::from_str("text/plain")
        };
        let mut p: Payload = Vec::new();
        push_pair(&mut p, datatype, msg.body);
        push_pair(&mut p, String::from_str("sa"), username);
        push_pair(&mut p, String::from_str("th"), msg.id);
        push_pair(&mut p, String::from_str("ch"), msg.channel);
        assert(pairs_view(p@) =~= payload_for(msg, username_in(old(self).directory(), msg.author@)));
        Some(p)
    }

    /// Handles a registration confirmation `{username, registered}` from the network.
    pub fn handle_confirmation(&mut self, username: String, registered: bool) -> (r: Outcome)
        requires
            old(self).wf(),
        ensures
            final(self).wf(),
            final(self).pending() == pending_after_confirmation(old(self).pending(), username@),
            final(self).directory() == directory_after_confirmation(
                old(self).directory(),
                old(self).pending(),
                username@,
                registered,
            ),
            final(self).own_account() == old(self).own_account(),
            final(self).peer() == old(self).peer(),
            reports_confirmation(
                old(self).directory(),
                old(self).pending(),
                username@,
                registered,
                r,
            ),
    {
        proof {
            lemma_confirmation_keeps_consistent(
                self.directory(),
                self.pending(),
                username@,
                registered,
            );
        }
        if registered {
            match self.current_transactions.get(&username) {
                Some(id) => {
                    self.current_transactions.remove(&username);
                    match self.database.add_user(&id, &username) {
                        Ok(_) => Outcome::Committed { id, username },
                        Err(error) => Outcome::CommitRefused { id, username, error },
                    }
                },
                None => Outcome::Nothing,
            }
        } else if self.current_transactions.contains(&username) {
            self.current_transactions.remove(&username);
            Outcome::Rejected { username }
        } else {
            self.database.remove_user(&username);
            Outcome::Removed { username }
        }
    }

    /// Handles an interaction received on the daemon account `account_id`: a registration
    /// confirmation for the bridge's account updates the pending requests and the
    /// directory; any other datatype for the bridge's account is delivered to the chat
    /// side; everything else is dropped.
    pub fn handle_interaction(&mut self, account_id: &String, interaction: Interaction) -> (r:
        Outcome)
        requires
            old(self).wf(),
        ensures
            final(self).wf(),
            reports_interaction(
                old(self).directory(),
                old(self).pending(),
                old(self).own_account().id@,
                account_id@,
                interaction,
                r,
            ),
            final(self).pending() == pending_after_interaction(
                old(self).pending(),
                old(self).own_account().id@,
                account_id@,
                interaction,
            ),
            final(self).directory() == directory_after_interaction(
                old(self).directory(),
                old(self).pending(),
                old(self).own_account().id@,
                account_id@,
                interaction,
            ),
            final(self).own_account() == old(self).own_account(),
            final(self).peer() == old(self).peer(),
    {
        if !(*account_id == self.account.id) {
            return Outcome::Nothing;
        }
        if interaction.datatype == String::from_str("rori/message") {
            match decode_confirmation(interaction.body.as_str()) {
                Some((username, registered)) => self.handle_confirmation(username, registered),
                None => Outcome::Nothing,
            }
        } else {
            let channel = match interaction.metadata(&String::from_str("ch")) {
                Some(c) => c,
                None => String::new(),
            };
            Outcome::Deliver(
                DiscordMsg {
                    id: String::new(),
                    body: interaction.body,
                    author: String::new(),
                    channel,
                },
            )
        }
    }

    /// Handles one signal of the daemon: only an incoming account message acts.
    pub fn handle_signal(&mut self, signal: Signal) -> (r: Outcome)
        requires
            old(self).wf(),
        ensures
            final(self).wf(),
            reports_signal(
                old(self).directory(),
                old(self).pending(),
                old(self).own_account().id@,
                signal,
                r,
            ),
            final(self).pending() == pending_after_signal(
                old(self).pending(),
                old(self).own_account().id@,
                signal,
            ),
            final(self).directory() == directory_after_signal(
                old(self).directory(),
                old(self).pending(),
                old(self).own_account().id@,
                signal,
            ),
            final(self).own_account() == old(self).own_account(),
            final(self).peer() == old(self).peer(),
    {
        match signal {
            Signal::IncomingAccountMessage { account_id, interaction } => self.handle_interaction(
                &account_id,
                interaction,
            ),
            _ => Outcome::Nothing,
        }
    }

    /// One turn of the bridge: handles a daemon signal, then takes the message waiting in
    /// the chat mailbox, if any, and decides what to forward for it.
    pub fn step(&mut self, signal: Signal, inbound: &mut Mailbox) -> (r: (Outcome, Option<Payload>))
        requires
            old(self).wf(),
        ensures
            final(self).wf(),
            ({
                let own = old(self).own_account().id@;
                let db = directory_after_signal(old(self).directory(), old(self).pending(), own, signal);
                let pending = pending_after_signal(old(self).pending(), own, signal);
                let msg = taken(*old(inbound));
                &&& reports_signal(old(self).directory(), old(self).pending(), own, signal, r.0)
                &&& r.1 is None <==> forwarded_payload(db, pending, msg) is None
                &&& r.1 matches Some(p) ==> forwarded_payload(db, pending, msg) == Some(pairs_view(p@))
                &&& final(self).pending() == pending_after_chat(db, pending, msg)
                &&& final(self).directory() == db
            }),
            final(inbound).slot.is_blank(),
            final(self).own_account() == old(self).own_account(),
            final(self).peer() == old(self).peer(),
    {
        let outcome = self.handle_signal(signal);
        let msg = inbound.take();
        let forward = self.handle_user_message(msg);
        (outcome, forward)
    }

    /// Drops every record for `username`: used when a commit could not be made durable.
    pub fn forget_username(&mut self, username: &String)
        requires
            old(self).wf(),
        ensures
            final(self).wf(),
            final(self).directory() == without_username(old(self).directory(), username@),
            final(self).pending() == old(self).pending(),
            final(self).own_account() == old(self).own_account(),
            final(self).peer() == old(self).peer(),
    {
        proof {
            let db = self.directory();
            lemma_remove_drops_name(db, username@);
            assert forall|v: Seq<char>| #[trigger] self.pending().contains_key(v) implies !is_committed(
                without_username(db, username@),
                v,
            ) by {
                if v != username@ {
                    lemma_remove_keeps_others(db, username@, v);
                }
            }
        }
        self.database.remove_user(username);
    }
}

} // verus!
