use vstd::prelude::*;

verus! {

/// A list of (key, value) text pairs, as plain values.
pub open spec fn pairs_view(v: Seq<(String, String)>) -> Seq<(Seq<char>, Seq<char>)> {
    v.map_values(|e: (String, String)| (e.0@, e.1@))
}

/// The map that a list of pairs describes: a later pair for a key replaces an earlier one.
pub open spec fn table_of(entries: Seq<(Seq<char>, Seq<char>)>) -> Map<Seq<char>, Seq<char>>
    decreases entries.len(),
{
    if entries.len() == 0 {
        Map::empty()
    } else {
        table_of(entries.drop_last()).insert(entries.last().0, entries.last().1)
    }
}

/// The value of the latest pair for `key`, if any.
pub fn lookup(v: &Vec<(String, String)>, key: &String) -> (r: Option<String>)
    ensures
        r is Some == table_of(pairs_view(v@)).contains_key(key@),
        r matches Some(x) ==> x@ == table_of(pairs_view(v@))[key@],
{
    let ghost all = pairs_view(v@);
    let mut found: Option<String> = None;
    let mut i: usize = 0;
    while i < v.len()
        invariant
            0 <= i <= v@.len(),
            all == pairs_view(v@),
            found is Some == table_of(all.subrange(0, i as int)).contains_key(key@),
            found matches Some(x) ==> x@ == table_of(all.subrange(0, i as int))[key@],
        decreases v@.len() - i,
    {
        assert(all.subrange(0, i + 1).drop_last() =~= all.subrange(0, i as int));
        if v[i].0 == *key {
            found = Some(v[i].1.clone());
        }
        i = i + 1;
    }
    assert(all.subrange(0, all.len() as int) =~= all);
    found
}

/// Appends the pair `(key, value)`.
pub fn push_pair(v: &mut Vec<(String, String)>, key: String, value: String)
    ensures
        pairs_view(final(v)@) == pairs_view(old(v)@).push((key@, value@)),
{
    let ghost k = key@;
    let ghost x = value@;
    v.push((key, value));
    assert(pairs_view(v@) =~= pairs_view(old(v)@).push((k, x)));
}

/// `v` without the pairs for `key`.
pub fn without_key(v: &Vec<(String, String)>, key: &String) -> (r: Vec<(String, String)>)
    ensures
        table_of(pairs_view(r@)) == table_of(pairs_view(v@)).remove(key@),
{
    let ghost all = pairs_view(v@);
    let mut kept: Vec<(String, String)> = Vec::new();
    let mut i: usize = 0;
    while i < v.len()
        invariant
            0 <= i <= v@.len(),
            all == pairs_view(v@),
            table_of(pairs_view(kept@)) == table_of(all.subrange(0, i as int)).remove(key@),
        decreases v@.len() - i,
    {
        let ghost prefix = all.subrange(0, i as int);
        assert(all.subrange(0, i + 1).drop_last() =~= prefix);
        if !(v[i].0 == *key) {
            let ghost before = pairs_view(kept@);
            push_pair(&mut kept, v[i].0.clone(), v[i].1.clone());
            assert(pairs_view(kept@).drop_last() =~= before);
        }
        assert(table_of(pairs_view(kept@)) =~= table_of(all.subrange(0, i + 1)).remove(key@));
        i = i + 1;
    }
    assert(all.subrange(0, all.len() as int) =~= all);
    kept
}

} // verus!
