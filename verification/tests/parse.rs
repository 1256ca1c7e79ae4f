use lite_rpc::config::{CliValues, LiteRpcConfig};
use lite_rpc::parse::parse_port_range;

const ZERO_KEY: &str = "11111111111111111111111111111111";

fn s(text: &str) -> String {
    text.to_string()
}

fn values() -> CliValues {
    CliValues {
        ledger_path: s("ledger"),
        expected_genesis_hash: None,
        expected_shred_version: None,
        rpc_port: s("8899"),
        private_rpc: false,
        full_rpc_api: false,
        enable_rpc_transaction_history: false,
        geyser_plugin_config: None,
        account_paths: None,
        snapshots: None,
        limit_ledger_size: None,
        gossip_port: None,
        dynamic_port_range: s("8000-10000"),
        repair_validators: None,
        gossip_validators: None,
        replay_forks_threads: s("1"),
        replay_transactions_threads: s("1"),
        tvu_receive_threads: s("2"),
        tvu_sigverify_threads: s("2"),
    }
}

fn decide(v: CliValues) -> Option<LiteRpcConfig> {
    LiteRpcConfig::from_values(v, true, true).ok()
}

fn rpc_port(text: &str) -> Option<u16> {
    let mut v = values();
    v.rpc_port = s(text);
    decide(v).map(|c| c.rpc_port)
}

#[test]
fn port_range_accepts_min_dash_max() {
    assert_eq!(parse_port_range("8000-10000"), Some((8000, 10000)));
    assert_eq!(parse_port_range("0-65535"), Some((0, 65535)));
    assert_eq!(parse_port_range("7-7"), Some((7, 7)));
    assert_eq!(parse_port_range("+1-+2"), Some((1, 2)));
}

#[test]
fn port_range_refusals() {
    assert_eq!(parse_port_range("10000-8000"), None);
    assert_eq!(parse_port_range("8000"), None);
    assert_eq!(parse_port_range("1-2-3"), None);
    assert_eq!(parse_port_range("-1"), None);
    assert_eq!(parse_port_range("1-"), None);
    assert_eq!(parse_port_range(" 1-2"), None);
    assert_eq!(parse_port_range("1-65536"), None);
    assert_eq!(parse_port_range(""), None);
}

#[test]
fn ports_are_read_as_std_reads_them() {
    assert_eq!(rpc_port("8899"), Some(8899));
    assert_eq!(rpc_port("+5"), Some(5));
    assert_eq!(rpc_port("007"), Some(7));
    assert_eq!(rpc_port("65535"), Some(65535));
    assert_eq!(rpc_port("65536"), None);
    assert_eq!(rpc_port("-1"), None);
    assert_eq!(rpc_port(""), None);
    assert_eq!(rpc_port("+"), None);
    assert_eq!(rpc_port("1 "), None);
}

#[test]
fn ledger_size_limit_is_a_u64() {
    let mut v = values();
    v.limit_ledger_size = Some(s("18446744073709551615"));
    assert_eq!(decide(v).unwrap().limit_ledger_size, Some(u64::MAX));
    let mut v = values();
    v.limit_ledger_size = Some(s("18446744073709551616"));
    assert!(decide(v).is_none());
}

#[test]
fn thread_counts_are_usize() {
    let mut v = values();
    v.tvu_receive_threads = s("12");
    assert_eq!(decide(v).unwrap().tvu_receive_threads, 12);
    let mut v = values();
    v.tvu_receive_threads = s("two");
    assert!(decide(v).is_none());
}

#[test]
fn base58_genesis_hash() {
    let mut v = values();
    v.expected_genesis_hash = Some(s(ZERO_KEY));
    assert_eq!(decide(v).unwrap().expected_genesis_hash, Some([0u8; 32]));
    let hash = solana_hash::Hash::new_from_array([7u8; 32]);
    let mut v = values();
    v.expected_genesis_hash = Some(hash.to_string());
    assert_eq!(decide(v).unwrap().expected_genesis_hash, Some([7u8; 32]));
    let mut v = values();
    v.expected_genesis_hash = Some(s("0OIl"));
    assert!(decide(v).is_none());
    let mut v = values();
    v.expected_genesis_hash = Some("1".repeat(45));
    assert!(decide(v).is_none());
}

#[test]
fn base58_validator_keys() {
    let key = solana_pubkey::Pubkey::new_from_array([9u8; 32]);
    let mut v = values();
    v.gossip_validators = Some(vec![key.to_string()]);
    assert_eq!(decide(v).unwrap().gossip_validators, Some(vec![[9u8; 32]]));
    let mut v = values();
    v.gossip_validators = Some(vec![s("not a key")]);
    assert!(decide(v).is_none());
    let mut v = values();
    v.gossip_validators = Some(vec!["2".repeat(45)]);
    assert!(decide(v).is_none());
}
