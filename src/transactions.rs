use vstd::prelude::*;

use crate::pairs::{lookup, pairs_view, push_pair, table_of, without_key};

verus! {

/// In-flight registration requests: requested username to the requesting platform user id.
pub struct Transactions {
    entries: Vec<(String, String)>,
}

impl View for Transactions {
    type V = Map<Seq<char>, Seq<char>>;

    closed spec fn view(&self) -> Map<Seq<char>, Seq<char>> {
        table_of(pairs_view(self.entries@))
    }
}

impl Transactions {
    /// An empty table.
    pub fn new() -> (r: Transactions)
        ensures
            r@ == Map::<Seq<char>, Seq<char>>::empty(),
    {
        let r = Transactions { entries: Vec::new() };
        assert(pairs_view(r.entries@) =~= Seq::empty());
        r
    }

    /// Whether a request for `username` is pending.
    pub fn contains(&self, username: &String) -> (r: bool)
        ensures
            r == self@.contains_key(username@),
    {
        lookup(&self.entries, username).is_some()
    }

    /// The requester of the pending request for `username`, if any.
    pub fn get(&self, username: &String) -> (r: Option<String>)
        ensures
            r is Some == self@.contains_key(username@),
            r matches Some(id) ==> id@ == self@[username@],
    {
        lookup(&self.entries, username)
    }

    /// Records a pending request for `username` from `requester`.
    pub fn insert(&mut self, username: String, requester: String)
        ensures
            final(self)@ == old(self)@.insert(username@, requester@),
    {
        let ghost before = pairs_view(self.entries@);
        push_pair(&mut self.entries, username, requester);
        assert(pairs_view(self.entries@).drop_last() =~= before);
    }

    /// Drops the pending request for `username`, if any.
    pub fn remove(&mut self, username: &String)
        ensures
            final(self)@ == old(self)@.remove(username@),
    {
        self.entries = without_key(&self.entries, username);
    }
}

} // verus!
