use vstd::prelude::*;
use vstd::string::*;

use crate::text::{decimal_of, parse_u64};

verus! {

/// The bridge's configuration: the chat platform's token, the bridge's own network
/// account, the name server and the peer's network address.
pub struct ConfigFile {
    pub discord_secret_token: String,
    pub ring_id: String,
    pub rori_server: String,
    pub rori_ring_id: String,
}

/// Whether an answer to a yes/no question is yes: `y` in either case.
pub fn answer_is_yes(answer: &str) -> (r: bool)
    ensures
        r == (answer@ == "y"@ || answer@ == "Y"@),
{
    let a = String::from_str(answer);
    a == String::from_str("y") || a == String::from_str("Y")
}

/// The account that an answer picks among `count` listed ones: an empty or unreadable
/// answer picks the first; a number past the list picks none.
pub open spec fn chosen_account(answer: Seq<char>, count: nat) -> Option<nat> {
    let picked: nat = match decimal_of(answer) {
        Some(v) => if v <= usize::MAX {
            v
        } else {
            0
        },
        None => 0,
    };
    if picked < count {
        Some(picked)
    } else {
        None
    }
}

/// Reads the choice among `count` listed accounts.
pub fn account_choice(answer: &str, count: usize) -> (r: Option<usize>)
    ensures
        r matches Some(i) ==> chosen_account(answer@, count as nat) == Some(i as nat),
        r is None ==> chosen_account(answer@, count as nat) is None,
{
    let picked: u64 = match parse_u64(answer) {
        Some(v) => if v <= usize::MAX as u64 {
            v
        } else {
            0
        },
        None => 0,
    };
    if picked < count as u64 {
        Some(picked as usize)
    } else {
        None
    }
}

/// The name server's base address: `https://` is put before one that does not start
/// with `http`.
pub open spec fn base_url(nameserver: Seq<char>) -> Seq<char> {
    if nameserver.len() >= 4 && nameserver.subrange(0, 4) == "http"@ {
        nameserver
    } else {
        "https://"@ + nameserver
    }
}

fn base_url_of(nameserver: &str) -> (r: String)
    ensures
        r@ == base_url(nameserver@),
{
    proof {
        reveal_strlit("http");
    }
    let n = nameserver.unicode_len();
    let has_scheme = n >= 4 && nameserver.get_char(0) == 'h' && nameserver.get_char(1) == 't'
        && nameserver.get_char(2) == 't' && nameserver.get_char(3) == 'p';
    proof {
        if n >= 4 {
            let t = nameserver@.subrange(0, 4);
            if has_scheme {
                assert(t =~= "http"@);
            } else if t == "http"@ {
                assert(t[0] == 'h' && t[1] == 't' && t[2] == 't' && t[3] == 'p');
            }
        }
    }
    if has_scheme {
        String::from_str(nameserver)
    } else {
        String::from_str("https://").concat(nameserver)
    }
}

/// The address that looks up the network address registered for `name`.
pub fn name_lookup_url(nameserver: &str, name: &str) -> (r: String)
    ensures
        r@ == base_url(nameserver@) + "/name/"@ + name@,
{
    base_url_of(nameserver).concat("/name/").concat(name)
}

/// The address that looks up the name registered for the network address `ring_id`.
pub fn addr_lookup_url(nameserver: &str, ring_id: &str) -> (r: String)
    ensures
        r@ == base_url(nameserver@) + "/addr/"@ + ring_id@,
{
    base_url_of(nameserver).concat("/addr/").concat(ring_id)
}

} // verus!
