use rori_discord_bridge::clean_string;
use rori_discord_bridge::config::{
    account_choice, addr_lookup_url, answer_is_yes, name_lookup_url,
};
use rori_discord_bridge::json::{decode_confirmation, ring_id_from_answer, username_from_answer};
use rori_discord_bridge::account::{account_details, strip_ring_scheme};
use rori_discord_bridge::message::{channel_id_of, is_default_channel};
use rori_discord_bridge::text::{first_token_of, parse_u64, second_token_of};
use rori_discord_bridge::Account;

fn s(x: &str) -> String {
    x.to_string()
}

#[test]
fn clean_string_strips_line_ending() {
    assert_eq!(clean_string(s("token\n")), "token");
    assert_eq!(clean_string(s("token\r\n")), "token");
    assert_eq!(clean_string(s("token")), "token");
    assert_eq!(clean_string(s("token\n\n")), "token\n");
    assert_eq!(clean_string(s("token\r")), "token");
    assert_eq!(clean_string(s("")), "");
}

#[test]
fn tokens_split_on_single_spaces() {
    assert_eq!(first_token_of("/register alice"), "/register");
    assert_eq!(second_token_of("/register alice"), Some(s("alice")));
    assert_eq!(second_token_of("/register  alice"), Some(s("alice")));
    assert_eq!(second_token_of("/register\talice"), Some(s("alice")));
    assert_eq!(first_token_of("  /link\nx"), "/link");
    assert_eq!(second_token_of("/register   "), None);
    assert_eq!(second_token_of("/register alice bob"), Some(s("alice")));
    assert_eq!(second_token_of("/register"), None);
    assert_eq!(first_token_of(""), "");
}

#[test]
fn decimal_parsing_follows_std() {
    for t in ["0", "42", "+7", "18446744073709551615", "007", "", "+", "-1", "1a", "18446744073709551616", " 1"] {
        assert_eq!(parse_u64(t), t.parse::<u64>().ok(), "{}", t);
    }
}

#[test]
fn confirmation_decoding() {
    assert_eq!(
        decode_confirmation("{\"username\":\"alice\",\"registered\":true}"),
        Some((s("alice"), true))
    );
    assert_eq!(
        decode_confirmation("{\"registered\":false,\"username\":\"bob\"}"),
        Some((s("bob"), false))
    );
    assert_eq!(decode_confirmation("{\"username\":\"bob\"}"), None);
    assert_eq!(decode_confirmation("{\"username\":1,\"registered\":true}"), None);
    assert_eq!(decode_confirmation("garbage"), None);
}

#[test]
fn name_server_answers() {
    assert_eq!(ring_id_from_answer("{\"addr\":\"0xabc123\"}"), "abc123");
    assert_eq!(ring_id_from_answer("{\"addr\":\"0x\"}"), "");
    assert_eq!(ring_id_from_answer("{\"error\":\"not found\"}"), "");
    assert_eq!(ring_id_from_answer("<html>"), "");
    assert_eq!(username_from_answer("{\"name\":\"rori\"}"), "rori");
    assert_eq!(username_from_answer("{\"name\":null}"), "");
    assert_eq!(username_from_answer("oops"), "");
}

#[test]
fn name_server_urls() {
    assert_eq!(name_lookup_url("ns.example.org", "rori"), "https://ns.example.org/name/rori");
    assert_eq!(name_lookup_url("http://ns:8080", "rori"), "http://ns:8080/name/rori");
    assert_eq!(addr_lookup_url("https://ns", "abc"), "https://ns/addr/abc");
}

#[test]
fn wizard_answers() {
    assert!(answer_is_yes("y"));
    assert!(answer_is_yes("Y"));
    assert!(!answer_is_yes("N"));
    assert!(!answer_is_yes("yes"));
    assert_eq!(account_choice("", 3), Some(0));
    assert_eq!(account_choice("2", 3), Some(2));
    assert_eq!(account_choice("3", 3), None);
    assert_eq!(account_choice("x", 3), Some(0));
    assert_eq!(account_choice("0", 0), None);
}

#[test]
fn channel_destinations() {
    assert_eq!(channel_id_of("1234"), Some(1234));
    assert_eq!(channel_id_of("0"), None);
    assert_eq!(channel_id_of(""), None);
    assert_eq!(channel_id_of("general"), None);
    assert!(is_default_channel("RORI", "general"));
    assert!(!is_default_channel("RORI", "random"));
    assert!(!is_default_channel("Other", "general"));
}

#[test]
fn account_from_daemon_details() {
    let details = vec![
        (s("Account.enable"), s("true")),
        (s("Account.alias"), s("bridge")),
        (s("Account.username"), s("ring:0123abcd")),
        (s("Account.type"), s("RING")),
    ];
    let a = Account::from_details(&s("acc1"), &details);
    assert_eq!(a.id, "acc1");
    assert!(a.enabled);
    assert_eq!(a.alias, "bridge");
    assert_eq!(a.ring_id, "0123abcd");
    let b = Account::from_details(&s("acc2"), &vec![(s("Account.enable"), s("false"))]);
    assert!(!b.enabled);
    assert_eq!(b.ring_id, "");
    assert_eq!(b.alias, "");
    let n = Account::null();
    assert_eq!(n.id, "");
    assert!(!n.enabled);
}

#[test]
fn ring_scheme_is_stripped_everywhere() {
    assert_eq!(strip_ring_scheme("ring:abc"), "abc");
    assert_eq!(strip_ring_scheme("abc"), "abc");
    assert_eq!(strip_ring_scheme("ring:ring:x"), "x");
    assert_eq!(strip_ring_scheme("aring:b"), "ab");
    assert_eq!(strip_ring_scheme("rin"), "rin");
}

#[test]
fn account_creation_details() {
    assert_eq!(
        account_details("/tmp/a.gz", "pw", true),
        vec![
            (s("Account.archivePath"), s("/tmp/a.gz")),
            (s("Account.type"), s("RING")),
            (s("Account.archivePassword"), s("pw")),
        ]
    );
    assert_eq!(account_details("bot", "", false)[0], (s("Account.alias"), s("bot")));
}
