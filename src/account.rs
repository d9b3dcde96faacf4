use vstd::prelude::*;
use vstd::string::*;

use crate::pairs::{lookup, pairs_view, push_pair, table_of};

verus! {

/// An account of the federated network, as the daemon describes it.
pub struct Account {
    pub id: String,
    pub ring_id: String,
    pub alias: String,
    pub enabled: bool,
}

impl Account {
    /// The account that stands for "none loaded".
    pub fn null() -> (r: Account)
        ensures
            r.id@.len() == 0,
            r.ring_id@.len() == 0,
            r.alias@.len() == 0,
            !r.enabled,
    {
        Account { id: String::new(), ring_id: String::new(), alias: String::new(), enabled: false }
    }
}

/// `s` with every `ring:` scheme marker removed, read from the left.
pub open spec fn strip_scheme(s: Seq<char>) -> Seq<char>
    decreases s.len(),
{
    if s.len() >= 5 && s.subrange(0, 5) == "ring:"@ {
        strip_scheme(s.subrange(5, s.len() as int))
    } else if s.len() == 0 {
        s
    } else {
        seq![s[0]] + strip_scheme(s.subrange(1, s.len() as int))
    }
}

/// Whether `ring:` starts at position `i` of `s`.
fn scheme_at(s: &str, i: usize) -> (r: bool)
    requires
        i + 5 <= s@.len() <= usize::MAX,
    ensures
        r == (s@.subrange(i as int, i + 5) == "ring:"@),
{
    let r = s.get_char(i) == 'r' && s.get_char(i + 1) == 'i' && s.get_char(i + 2) == 'n'
        && s.get_char(i + 3) == 'g' && s.get_char(i + 4) == ':';
    proof {
        reveal_strlit("ring:");
        let t = s@.subrange(i as int, i + 5);
        if r {
            assert(t =~= "ring:"@);
        } else if t == "ring:"@ {
            assert(t[0] == 'r' && t[1] == 'i' && t[2] == 'n' && t[3] == 'g' && t[4] == ':');
        }
    }
    r
}

/// `s` with every `ring:` scheme marker removed.
pub fn strip_ring_scheme(s: &str) -> (r: String)
    ensures
        r@ == strip_scheme(s@),
{
    let n = s.unicode_len();
    let mut out = String::new();
    let mut i: usize = 0;
    assert(s@.subrange(0, n as int) =~= s@);
    assert(out@ + strip_scheme(s@) =~= strip_scheme(s@));
    while i < n
        invariant
            0 <= i <= n,
            n == s@.len(),
            out@ + strip_scheme(s@.subrange(i as int, n as int)) == strip_scheme(s@),
        decreases n - i,
    {
        let ghost t = s@.subrange(i as int, n as int);
        if n - i >= 5 && scheme_at(s, i) {
            assert(t.subrange(0, 5) =~= s@.subrange(i as int, i + 5));
            assert(t.subrange(5, t.len() as int) =~= s@.subrange(i + 5, n as int));
            i = i + 5;
        } else {
            let ghost before = out@;
            out.append(s.substring_char(i, i + 1));
            proof {
                if t.len() >= 5 {
                    assert(t.subrange(0, 5) =~= s@.subrange(i as int, i + 5));
                }
            }
            assert(t.subrange(1, t.len() as int) =~= s@.subrange(i + 1, n as int));
            assert(s@.subrange(i as int, i + 1) =~= seq![t[0]]);
            assert(before + strip_scheme(t) =~= out@ + strip_scheme(t.subrange(1, t.len() as int)));
            i = i + 1;
        }
    }
    assert(s@.subrange(n as int, n as int) =~= Seq::<char>::empty());
    assert(out@ + Seq::<char>::empty() =~= out@);
    out
}

/// The value that a details map gives for `key`, or the empty text.
pub open spec fn detail_or_empty(m: Map<Seq<char>, Seq<char>>, key: Seq<char>) -> Seq<char> {
    if m.contains_key(key) {
        m[key]
    } else {
        Seq::empty()
    }
}

impl Account {
    /// Builds the account `id` from the daemon's details: `Account.enable` says whether it
    /// is enabled, `Account.alias` gives its alias and `Account.username`, without its
    /// `ring:` markers, its network address.
    pub fn from_details(id: &String, details: &Vec<(String, String)>) -> (r: Account)
        ensures
            r.id@ == id@,
            r.enabled == (detail_or_empty(table_of(pairs_view(details@)), "Account.enable"@)
                == "true"@),
            r.alias@ == detail_or_empty(table_of(pairs_view(details@)), "Account.alias"@),
            r.ring_id@ == strip_scheme(
                detail_or_empty(table_of(pairs_view(details@)), "Account.username"@),
            ),
    {
        proof {
            reveal_strlit("true");
        }
        let enabled = match lookup(details, &String::from_str("Account.enable")) {
            Some(v) => v == String::from_str("true"),
            None => false,
        };
        let alias = match lookup(details, &String::from_str("Account.alias")) {
            Some(v) => v,
            None => String::new(),
        };
        let ring_id = match lookup(details, &String::from_str("Account.username")) {
            Some(v) => strip_ring_scheme(v.as_str()),
            None => {
                assert(strip_scheme(Seq::<char>::empty()) == Seq::<char>::empty());
                String::new()
            },
        };
        Account { id: id.clone(), ring_id, alias, enabled }
    }
}

/// The details that ask the daemon to create an account: from an archive at `main_info`,
/// or new under the alias `main_info`.
pub fn account_details(main_info: &str, password: &str, from_archive: bool) -> (r: Vec<
    (String, String),
>)
    ensures
        pairs_view(r@) == seq![
            (if from_archive {
                "Account.archivePath"@
            } else {
                "Account.alias"@
            }, main_info@),
            ("Account.type"@, "RING"@),
            ("Account.archivePassword"@, password@),
        ],
{
    let mut d: Vec<(String, String)> = Vec::new();
    let key = if from_archive {
        String::from_str("Account.archivePath")
    } else {
        String::from_str("Account.alias")
    };
    push_pair(&mut d, key, String::from_str(main_info));
    push_pair(&mut d, String::from_str("Account.type"), String::from_str("RING"));
    push_pair(&mut d, String::from_str("Account.archivePassword"), String::from_str(password));
    assert(pairs_view(d@) =~= seq![
        (if from_archive {
            "Account.archivePath"@
        } else {
            "Account.alias"@
        }, main_info@),
        ("Account.type"@, "RING"@),
        ("Account.archivePassword"@, password@),
    ]);
    d
}

} // verus!
