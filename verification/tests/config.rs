use lite_rpc::config::{
    thread_count, CliValues, ConfigError, LiteRpcConfig, Problem, ThreadPool,
    DEFAULT_GOSSIP_PORT,
};
use lite_rpc::config::parse_validator_keys;
use lite_rpc::parse::IntTextError;
use std::path::PathBuf;

const ZERO_KEY: &str = "11111111111111111111111111111111";

fn s(text: &str) -> String {
    text.to_string()
}

/// The values of a command line that gives only the ledger.
fn defaults() -> CliValues {
    CliValues {
        ledger_path: s("/ledger"),
        expected_genesis_hash: None,
        expected_shred_version: None,
        rpc_port: s("8899"),
        private_rpc: false,
        full_rpc_api: false,
        enable_rpc_transaction_history: false,
        geyser_plugin_config: None,
        account_paths: None,
        snapshots: None,
        limit_ledger_size: Some(s("200000000")),
        gossip_port: None,
        dynamic_port_range: s("8000-10000"),
        repair_validators: None,
        gossip_validators: None,
        replay_forks_threads: s("1"),
        replay_transactions_threads: s("1"),
        tvu_receive_threads: s("2"),
        tvu_sigverify_threads: s("2"),
    }
}

fn problem(e: &ConfigError) -> Problem {
    match e {
        ConfigError::InvalidGenesisHash(_) => Problem::GenesisHash,
        ConfigError::InvalidShredVersion(_) => Problem::ShredVersion,
        ConfigError::InvalidRpcPort(_) => Problem::RpcPort,
        ConfigError::InvalidRpcBindAddress => Problem::RpcBindAddress,
        ConfigError::InvalidBindAddress => Problem::BindAddress,
        ConfigError::InvalidGossipPort(_) => Problem::GossipPort,
        ConfigError::InvalidDynamicPortRange => Problem::DynamicPortRange,
        ConfigError::InvalidLimitLedgerSize(_) => Problem::LimitLedgerSize,
        ConfigError::InvalidRepairValidator(_) => Problem::RepairValidator,
        ConfigError::InvalidGossipValidator(_) => Problem::GossipValidator,
        ConfigError::InvalidThreadCount(p, _) => Problem::ThreadCount(*p),
        ConfigError::ZeroThreads(p) => Problem::ZeroThreads(*p),
    }
}

fn refused(values: CliValues) -> Problem {
    problem(&LiteRpcConfig::from_values(values, true, true).err().unwrap())
}

#[test]
fn defaults_are_applied() {
    let c = LiteRpcConfig::from_values(defaults(), true, true).ok().unwrap();
    assert_eq!(c.ledger_path, PathBuf::from("/ledger"));
    assert_eq!(c.rpc_port, 8899);
    assert_eq!(c.gossip_port, DEFAULT_GOSSIP_PORT);
    assert_eq!(c.gossip_port, 8001);
    assert_eq!(c.dynamic_port_range, (8000, 10000));
    assert_eq!(c.snapshot_path, PathBuf::from("/ledger"));
    assert_eq!(c.account_paths, vec![PathBuf::from("/ledger/accounts")]);
    assert_eq!(c.geyser_plugin_config_files, None);
    assert_eq!(c.limit_ledger_size, Some(200_000_000));
    assert_eq!(c.expected_genesis_hash, None);
    assert_eq!(c.expected_shred_version, None);
    assert_eq!(c.repair_validators, None);
    assert_eq!(c.replay_forks_threads, 1);
    assert_eq!(c.tvu_receive_threads, 2);
    assert_eq!(c.tvu_sigverify_threads, 2);
    assert!(!c.private_rpc && !c.full_rpc_api && !c.enable_rpc_transaction_history);
}

#[test]
fn given_values_are_read() {
    let mut v = defaults();
    v.expected_genesis_hash = Some(s(ZERO_KEY));
    v.expected_shred_version = Some(s("50093"));
    v.gossip_port = Some(s("9001"));
    v.snapshots = Some(s("/snapshots"));
    v.account_paths = Some(vec![s("/a"), s("/b")]);
    v.geyser_plugin_config = Some(vec![s("plugin.json")]);
    v.private_rpc = true;
    v.full_rpc_api = true;
    v.repair_validators = Some(vec![s(ZERO_KEY), s(ZERO_KEY)]);
    let c = LiteRpcConfig::from_values(v, true, true).ok().unwrap();
    assert_eq!(c.expected_genesis_hash, Some([0u8; 32]));
    assert_eq!(c.expected_shred_version, Some(50093));
    assert_eq!(c.gossip_port, 9001);
    assert_eq!(c.snapshot_path, PathBuf::from("/snapshots"));
    assert_eq!(c.account_paths, vec![PathBuf::from("/a"), PathBuf::from("/b")]);
    assert_eq!(c.geyser_plugin_config_files, Some(vec![PathBuf::from("plugin.json")]));
    assert!(c.private_rpc && c.full_rpc_api);
    assert_eq!(c.repair_validators, Some(vec![[0u8; 32]]));
}

#[test]
fn each_refusal_names_its_value() {
    let mut v = defaults();
    v.expected_genesis_hash = Some(s("not-base58"));
    assert_eq!(refused(v), Problem::GenesisHash);
    let mut v = defaults();
    v.expected_shred_version = Some(s("70000"));
    assert_eq!(refused(v), Problem::ShredVersion);
    let mut v = defaults();
    v.rpc_port = s("http");
    assert_eq!(refused(v), Problem::RpcPort);
    let mut v = defaults();
    v.gossip_port = Some(s("-1"));
    assert_eq!(refused(v), Problem::GossipPort);
    let mut v = defaults();
    v.dynamic_port_range = s("10000-8000");
    assert_eq!(refused(v), Problem::DynamicPortRange);
    let mut v = defaults();
    v.limit_ledger_size = Some(s("lots"));
    assert_eq!(refused(v), Problem::LimitLedgerSize);
    let mut v = defaults();
    v.repair_validators = Some(vec![s(ZERO_KEY), s("bad key")]);
    assert_eq!(refused(v), Problem::RepairValidator);
    let mut v = defaults();
    v.gossip_validators = Some(vec![s("0")]);
    assert_eq!(refused(v), Problem::GossipValidator);
    let mut v = defaults();
    v.replay_transactions_threads = s("0");
    assert_eq!(refused(v), Problem::ZeroThreads(ThreadPool::ReplayTransactions));
    let mut v = defaults();
    v.tvu_receive_threads = s("x");
    assert_eq!(refused(v), Problem::ThreadCount(ThreadPool::TvuReceive));
}

#[test]
fn bind_addresses_are_checked_in_order() {
    let e = LiteRpcConfig::from_values(defaults(), false, false).err().unwrap();
    assert_eq!(problem(&e), Problem::RpcBindAddress);
    assert!(!e.is_fatal());
    let e = LiteRpcConfig::from_values(defaults(), true, false).err().unwrap();
    assert_eq!(problem(&e), Problem::BindAddress);
}

#[test]
fn the_first_problem_wins() {
    let mut v = defaults();
    v.expected_shred_version = Some(s("x"));
    v.dynamic_port_range = s("bad");
    v.tvu_sigverify_threads = s("0");
    assert_eq!(refused(v), Problem::ShredVersion);
    let mut v = defaults();
    v.replay_forks_threads = s("0");
    v.replay_transactions_threads = s("x");
    assert_eq!(refused(v), Problem::ZeroThreads(ThreadPool::ReplayForks));
}

#[test]
fn fatal_errors() {
    let mut v = defaults();
    v.rpc_port = s("99999");
    assert!(LiteRpcConfig::from_values(v, true, true).err().unwrap().is_fatal());
    let mut v = defaults();
    v.replay_forks_threads = s("0");
    assert!(!LiteRpcConfig::from_values(v, true, true).err().unwrap().is_fatal());
    let mut v = defaults();
    v.dynamic_port_range = s("1");
    assert!(!LiteRpcConfig::from_values(v, true, true).err().unwrap().is_fatal());
}

#[test]
fn thread_counts() {
    assert_eq!(thread_count(&s("4"), ThreadPool::TvuSigverify).ok(), Some(4));
    assert!(matches!(
        thread_count(&s("0"), ThreadPool::TvuSigverify),
        Err(ConfigError::ZeroThreads(ThreadPool::TvuSigverify))
    ));
    assert!(matches!(
        thread_count(&s(""), ThreadPool::ReplayForks),
        Err(ConfigError::InvalidThreadCount(ThreadPool::ReplayForks, _))
    ));
}

#[test]
fn validator_keys_are_distinct() {
    let key = solana_pubkey::Pubkey::new_from_array([3u8; 32]).to_string();
    let keys = parse_validator_keys(&vec![s(ZERO_KEY), key.clone(), s(ZERO_KEY), key]).unwrap();
    assert_eq!(keys, vec![[0u8; 32], [3u8; 32]]);
    let key = solana_pubkey::Pubkey::new_from_array([3u8; 32]).to_string();
    let keys = parse_validator_keys(&vec![key, s(ZERO_KEY)]).unwrap();
    assert_eq!(keys, vec![[3u8; 32], [0u8; 32]]);
    assert_eq!(parse_validator_keys(&vec![]).unwrap(), Vec::<[u8; 32]>::new());
    assert!(parse_validator_keys(&vec![s("O")]).is_err());
}

fn kind(v: CliValues) -> Option<IntTextError> {
    LiteRpcConfig::from_values(v, true, true).err().unwrap().int_error_kind()
}

#[test]
fn number_errors_carry_their_kind() {
    let mut v = defaults();
    v.expected_shred_version = Some(s("70000"));
    let e = LiteRpcConfig::from_values(v, true, true).err().unwrap();
    assert_eq!(e.int_error_kind(), Some(IntTextError::PosOverflow));
    match e {
        ConfigError::InvalidShredVersion(e) => assert_eq!(
            format!("Invalid shred version: {e}"),
            "Invalid shred version: number too large to fit in target type"
        ),
        _ => panic!("expected a shred version error"),
    }
    let mut v = defaults();
    v.expected_shred_version = Some(s(""));
    assert_eq!(kind(v), Some(IntTextError::Empty));
    let mut v = defaults();
    v.rpc_port = s("+");
    assert_eq!(kind(v), Some(IntTextError::InvalidDigit));
    let mut v = defaults();
    v.gossip_port = Some(s("-1"));
    assert_eq!(kind(v), Some(IntTextError::InvalidDigit));
    let mut v = defaults();
    v.tvu_sigverify_threads = s("x1");
    assert_eq!(kind(v), Some(IntTextError::InvalidDigit));
    let mut v = defaults();
    v.dynamic_port_range = s("1");
    assert_eq!(kind(v), None);
}
