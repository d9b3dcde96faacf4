use vstd::prelude::*;

verus! {

/// The schema version that the persistent store is migrated to.
pub const SCHEMA_VERSION: i64 = 1;

/// Whether a store that reports `version` can be used: migrations only go forward, so a
/// store written by a newer schema is refused.
pub fn schema_supported(version: i64) -> (r: bool)
    ensures
        r == (version <= SCHEMA_VERSION),
{
    version <= SCHEMA_VERSION
}

/// Whether a store that reports `version` must be migrated forward before use.
pub fn needs_migration(version: i64) -> (r: bool)
    ensures
        r == (version < SCHEMA_VERSION),
{
    version < SCHEMA_VERSION
}

/// Why a directory operation failed.
#[derive(Debug, Clone, Copy, PartialEq, Eq, Structural)]
pub enum StorageError {
    /// The platform user id is already mapped.
    Conflict,
    /// The underlying storage failed.
    Io,
}

/// One committed mapping of a chat-platform user id to a network username.
#[derive(Debug)]
pub struct IdentityRecord {
    pub id: String,
    pub username: String,
}

/// A row as plain values: (platform user id, network username).
pub type Row = (Seq<char>, Seq<char>);

/// Whether some row maps the platform user id `id`.
pub open spec fn has_id(rows: Seq<Row>, id: Seq<char>) -> bool {
    exists|i: int| 0 <= i < rows.len() && #[trigger] rows[i].0 == id
}

/// No two rows map the same platform user id.
pub open spec fn ids_unique(rows: Seq<Row>) -> bool {
    forall|i: int, j: int| 0 <= i < j < rows.len() ==> #[trigger] rows[i].0 != #[trigger] rows[j].0
}

/// The username of the latest row for `id`, or the empty text.
pub open spec fn username_in(rows: Seq<Row>, id: Seq<char>) -> Seq<char>
    decreases rows.len(),
{
    if rows.len() == 0 {
        Seq::empty()
    } else if rows.last().0 == id {
        rows.last().1
    } else {
        username_in(rows.drop_last(), id)
    }
}

/// The platform user id of the latest row for `name`, or the empty text.
pub open spec fn id_in(rows: Seq<Row>, name: Seq<char>) -> Seq<char>
    decreases rows.len(),
{
    if rows.len() == 0 {
        Seq::empty()
    } else if rows.last().1 == name {
        rows.last().0
    } else {
        id_in(rows.drop_last(), name)
    }
}

/// The rows whose username is not `name`, in their order.
pub open spec fn without_username(rows: Seq<Row>, name: Seq<char>) -> Seq<Row>
    decreases rows.len(),
{
    if rows.len() == 0 {
        rows
    } else {
        let rest = without_username(rows.drop_last(), name);
        if rows.last().1 == name {
            rest
        } else {
            rest.push(rows.last())
        }
    }
}

/// The rows after committing `(id, name)`: unchanged when `id` is already mapped.
pub open spec fn committed(rows: Seq<Row>, id: Seq<char>, name: Seq<char>) -> Seq<Row> {
    if has_id(rows, id) {
        rows
    } else {
        rows.push((id, name))
    }
}

/// The identity directory: platform user ids and the network usernames committed for them.
pub struct Database {
    records: Vec<IdentityRecord>,
}

impl View for Database {
    type V = Seq<Row>;

    closed spec fn view(&self) -> Seq<Row> {
        self.records@.map_values(|r: IdentityRecord| (r.id@, r.username@))
    }
}

/// After committing `(id, name)` for an unmapped `id`, `id` resolves to `name` and `name` to `id`.
pub proof fn lemma_commit_then_lookup(rows: Seq<Row>, id: Seq<char>, name: Seq<char>)
    requires
        !has_id(rows, id),
    ensures
        username_in(committed(rows, id, name), id) == name,
        id_in(committed(rows, id, name), name) == id,
{
    assert(committed(rows, id, name).drop_last() =~= rows);
}

/// After removing `name`, no platform user id resolves to it.
pub proof fn lemma_remove_then_lookup(rows: Seq<Row>, name: Seq<char>)
    ensures
        id_in(without_username(rows, name), name) == Seq::<char>::empty(),
    decreases rows.len(),
{
    if rows.len() > 0 {
        lemma_remove_then_lookup(rows.drop_last(), name);
        let rest = without_username(rows.drop_last(), name);
        assert(rest.push(rows.last()).drop_last() =~= rest);
    }
}

/// Removing a username that no row holds leaves the rows as they are.
pub proof fn lemma_remove_absent(rows: Seq<Row>, name: Seq<char>)
    requires
        forall|k: int| 0 <= k < rows.len() ==> #[trigger] rows[k].1 != name,
    ensures
        without_username(rows, name) == rows,
    decreases rows.len(),
{
    if rows.len() > 0 {
        let front = rows.drop_last();
        assert forall|k: int| 0 <= k < front.len() implies #[trigger] front[k].1 != name by {
            assert(front[k] == rows[k]);
        }
        lemma_remove_absent(front, name);
        assert(rows.last() == rows[rows.len() - 1]);
        assert(front.push(rows.last()) =~= rows);
    }
}

/// Every row kept by a removal is a row of the rows it was made from.
pub proof fn lemma_remove_subset(rows: Seq<Row>, name: Seq<char>, k: int)
    requires
        0 <= k < without_username(rows, name).len(),
    ensures
        exists|j: int| 0 <= j < rows.len() && #[trigger] rows[j] == without_username(rows, name)[k],
    decreases rows.len(),
{
    let front = rows.drop_last();
    let rest = without_username(front, name);
    if k < rest.len() {
        lemma_remove_subset(front, name, k);
        let j = choose|j: int| 0 <= j < front.len() && #[trigger] front[j] == rest[k];
        assert(rows[j] == front[j]);
        if rows.last().1 != name {
            assert(rest.push(rows.last())[k] == rest[k]);
        }
    } else {
        assert(rows[rows.len() - 1] == without_username(rows, name)[k]);
    }
}

/// A removal keeps the platform user ids unique.
pub proof fn lemma_remove_keeps_unique(rows: Seq<Row>, name: Seq<char>)
    requires
        ids_unique(rows),
    ensures
        ids_unique(without_username(rows, name)),
    decreases rows.len(),
{
    if rows.len() > 0 {
        let front = rows.drop_last();
        assert(ids_unique(front)) by {
            assert forall|i: int, j: int| 0 <= i < j < front.len() implies #[trigger] front[i].0
                != #[trigger] front[j].0 by {
                assert(front[i] == rows[i] && front[j] == rows[j]);
            }
        }
        lemma_remove_keeps_unique(front, name);
        let rest = without_username(front, name);
        if rows.last().1 != name {
            let r = rest.push(rows.last());
            assert forall|i: int, j: int| 0 <= i < j < r.len() implies #[trigger] r[i].0
                != #[trigger] r[j].0 by {
                if j == r.len() - 1 {
                    lemma_remove_subset(front, name, i);
                    let m = choose|m: int| 0 <= m < front.len() && #[trigger] front[m] == rest[i];
                    assert(rows[m] == front[m]);
                    assert(rows[rows.len() - 1] == rows.last());
                } else {
                    assert(r[i] == rest[i] && r[j] == rest[j]);
                }
            }
        }
    }
}

/// Whether some row holds the username `name`.
pub open spec fn has_username(rows: Seq<Row>, name: Seq<char>) -> bool {
    exists|i: int| 0 <= i < rows.len() && #[trigger] rows[i].1 == name
}

pub proof fn lemma_has_username_push(rows: Seq<Row>, x: Row, name: Seq<char>)
    ensures
        has_username(rows.push(x), name) == (has_username(rows, name) || x.1 == name),
{
    let r = rows.push(x);
    if has_username(rows, name) {
        let i = choose|i: int| 0 <= i < rows.len() && #[trigger] rows[i].1 == name;
        assert(r[i] == rows[i]);
    }
    if x.1 == name {
        assert(r[rows.len() as int] == x);
    }
    if has_username(r, name) && x.1 != name {
        let i = choose|i: int| 0 <= i < r.len() && #[trigger] r[i].1 == name;
        assert(i < rows.len());
        assert(rows[i] == r[i]);
    }
}

/// A username that no row holds resolves to no platform user id.
pub proof fn lemma_absent_resolves_empty(rows: Seq<Row>, name: Seq<char>)
    requires
        !has_username(rows, name),
    ensures
        id_in(rows, name) == Seq::<char>::empty(),
    decreases rows.len(),
{
    if rows.len() > 0 {
        assert(rows.drop_last().push(rows.last()) =~= rows);
        lemma_has_username_push(rows.drop_last(), rows.last(), name);
        lemma_absent_resolves_empty(rows.drop_last(), name);
    }
}

/// Removing `name` keeps every other username held or not held as before.
pub proof fn lemma_remove_keeps_others(rows: Seq<Row>, name: Seq<char>, other: Seq<char>)
    requires
        other != name,
    ensures
        has_username(without_username(rows, name), other) == has_username(rows, other),
    decreases rows.len(),
{
    if rows.len() > 0 {
        let front = rows.drop_last();
        lemma_remove_keeps_others(front, name, other);
        assert(front.push(rows.last()) =~= rows);
        lemma_has_username_push(front, rows.last(), other);
        let rest = without_username(front, name);
        lemma_has_username_push(rest, rows.last(), other);
    }
}

/// After removing `name`, no row holds it.
pub proof fn lemma_remove_drops_name(rows: Seq<Row>, name: Seq<char>)
    ensures
        !has_username(without_username(rows, name), name),
    decreases rows.len(),
{
    if rows.len() > 0 {
        let front = rows.drop_last();
        lemma_remove_drops_name(front, name);
        let rest = without_username(front, name);
        lemma_has_username_push(rest, rows.last(), name);
    }
}

/// Committing a record for `name` keeps every other username held or not held as before.
pub proof fn lemma_commit_keeps_others(
    rows: Seq<Row>,
    id: Seq<char>,
    name: Seq<char>,
    other: Seq<char>,
)
    requires
        other != name,
    ensures
        has_username(committed(rows, id, name), other) == has_username(rows, other),
{
    lemma_has_username_push(rows, (id, name), other);
}

impl Database {
    /// The primary key: no two records share a platform user id.
    #[verifier::type_invariant]
    spec fn inv(&self) -> bool {
        ids_unique(self@)
    }

    /// An empty directory.
    pub fn new() -> (r: Database)
        ensures
            r@ == Seq::<Row>::empty(),
    {
        let r = Database { records: Vec::new() };
        assert(r@ =~= Seq::<Row>::empty());
        r
    }

    /// The number of committed records.
    pub fn len(&self) -> (r: usize)
        ensures
            r == self@.len(),
    {
        self.records.len()
    }

    /// Whether `id` is mapped.
    pub fn contains_id(&self, id: &String) -> (r: bool)
        ensures
            r == has_id(self@, id@),
    {
        let mut i: usize = 0;
        while i < self.records.len()
            invariant
                0 <= i <= self.records@.len(),
                forall|j: int| 0 <= j < i ==> #[trigger] self@[j].0 != id@,
            decreases self.records@.len() - i,
        {
            if self.records[i].id == *id {
                assert(self@[i as int].0 == id@);
                return true;
            }
            i = i + 1;
        }
        false
    }

    /// Whether some record holds `username`.
    pub fn contains_username(&self, username: &String) -> (r: bool)
        ensures
            r == has_username(self@, username@),
    {
        let mut i: usize = 0;
        while i < self.records.len()
            invariant
                0 <= i <= self.records@.len(),
                forall|j: int| 0 <= j < i ==> #[trigger] self@[j].1 != username@,
            decreases self.records@.len() - i,
        {
            if self.records[i].username == *username {
                assert(self@[i as int].1 == username@);
                return true;
            }
            i = i + 1;
        }
        false
    }

    /// Commits `(id, username)`; fails with `Conflict`, changing nothing, when `id` is mapped.
    /// On success returns the position of the new record.
    pub fn add_user(&mut self, id: &String, username: &String) -> (r: Result<usize, StorageError>)
        ensures
            final(self)@ == committed(old(self)@, id@, username@),
            r is Err <==> has_id(old(self)@, id@),
            r matches Err(e) ==> e == StorageError::Conflict,
            r matches Ok(n) ==> n == old(self)@.len(),
    {
        proof {
            use_type_invariant(&*self);
        }
        if self.contains_id(id) {
            return Err(StorageError::Conflict);
        }
        let n = self.records.len();
        let rec = IdentityRecord { id: id.clone(), username: username.clone() };
        let mut records: Vec<IdentityRecord> = Vec::new();
        std::mem::swap(&mut records, &mut self.records);
        records.push(rec);
        let ghost rows = records@.map_values(|r: IdentityRecord| (r.id@, r.username@));
        assert(rows =~= old(self)@.push((id@, username@)));
        assert(ids_unique(rows)) by {
            assert forall|i: int, j: int| 0 <= i < j < rows.len() implies #[trigger] rows[i].0
                != #[trigger] rows[j].0 by {
                if j == rows.len() - 1 {
                    assert(rows[i] == old(self)@[i]);
                } else {
                    assert(rows[i] == old(self)@[i] && rows[j] == old(self)@[j]);
                }
            }
        }
        std::mem::swap(&mut records, &mut self.records);
        Ok(n)
    }

    /// The username committed for `id`, or the empty string.
    pub fn username(&self, id: &String) -> (r: String)
        ensures
            r@ == username_in(self@, id@),
    {
        let mut found = String::new();
        let mut i: usize = 0;
        while i < self.records.len()
            invariant
                0 <= i <= self.records@.len(),
                found@ == username_in(self@.subrange(0, i as int), id@),
            decreases self.records@.len() - i,
        {
            assert(self@.subrange(0, i + 1).drop_last() =~= self@.subrange(0, i as int));
            if self.records[i].id == *id {
                found = self.records[i].username.clone();
            }
            i = i + 1;
        }
        assert(self@.subrange(0, self@.len() as int) =~= self@);
        found
    }

    /// The platform user id committed for `username`, or the empty string.
    pub fn id(&self, username: &String) -> (r: String)
        ensures
            r@ == id_in(self@, username@),
    {
        let mut found = String::new();
        let mut i: usize = 0;
        while i < self.records.len()
            invariant
                0 <= i <= self.records@.len(),
                found@ == id_in(self@.subrange(0, i as int), username@),
            decreases self.records@.len() - i,
        {
            assert(self@.subrange(0, i + 1).drop_last() =~= self@.subrange(0, i as int));
            if self.records[i].username == *username {
                found = self.records[i].id.clone();
            }
            i = i + 1;
        }
        assert(self@.subrange(0, self@.len() as int) =~= self@);
        found
    }

    /// Removes every record for `username`; returns how many were removed.
    pub fn remove_user(&mut self, username: &String) -> (r: usize)
        ensures
            final(self)@ == without_username(old(self)@, username@),
            r == old(self)@.len() - final(self)@.len(),
    {
        proof {
            use_type_invariant(&*self);
        }
        let mut kept: Vec<IdentityRecord> = Vec::new();
        let mut i: usize = 0;
        let ghost rows = self@;
        while i < self.records.len()
            invariant
                0 <= i <= self.records@.len(),
                rows == self@,
                kept@.map_values(|r: IdentityRecord| (r.id@, r.username@)) == without_username(
                    rows.subrange(0, i as int),
                    username@,
                ),
                kept@.len() <= i,
            decreases self.records@.len() - i,
        {
            assert(rows.subrange(0, i + 1).drop_last() =~= rows.subrange(0, i as int));
            if !(self.records[i].username == *username) {
                let rec = IdentityRecord {
                    id: self.records[i].id.clone(),
                    username: self.records[i].username.clone(),
                };
                kept.push(rec);
            }
            i = i + 1;
        }
        assert(rows.subrange(0, rows.len() as int) =~= rows);
        let removed = self.records.len() - kept.len();
        proof {
            lemma_remove_keeps_unique(rows, username@);
        }
        self.records = kept;
        removed
    }
}

} // verus!
