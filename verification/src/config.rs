//! The node's configuration as decided from the values given on the command
//! line: numbers read, defaults applied, and the inputs that are refused.
//!
//! Reading the command line, the identity keypair file and the entrypoint
//! host names, and parsing the IP addresses (which lives in `std::net`), stay
//! with the program; everything that follows from the text of the values is
//! decided here.

use std::num::ParseIntError;
use std::path::PathBuf;
use solana_hash::ParseHashError;
use solana_pubkey::ParsePubkeyError;
use vstd::prelude::*;
use crate::parse::{
    documented_int_error, int_error_kind, parse_error_kind, IntTextError, hash_from_str, hash_text_bytes, parse_port_range, parse_u16, parse_u64, parse_usize,
    port_range_text, pubkey_from_str, pubkey_text_bytes,
};
use crate::paths::{joined_path, path_from, path_join, path_of, paths_from, paths_of, texts};
use crate::text::bounded_text_value;

verus! {

/// Gossip port used when none is given.
pub const DEFAULT_GOSSIP_PORT: u16 = 8001;

/// The thread pools whose size is configured.
#[derive(Clone, Copy, Debug, PartialEq, Eq)]
pub enum ThreadPool {
    ReplayForks,
    ReplayTransactions,
    TvuReceive,
    TvuSigverify,
}

/// The values given on the command line, as text. Values that have a default
/// on the command line are always present.
pub struct CliValues {
    pub ledger_path: String,
    pub expected_genesis_hash: Option<String>,
    pub expected_shred_version: Option<String>,
    pub rpc_port: String,
    pub private_rpc: bool,
    pub full_rpc_api: bool,
    pub enable_rpc_transaction_history: bool,
    pub geyser_plugin_config: Option<Vec<String>>,
    pub account_paths: Option<Vec<String>>,
    pub snapshots: Option<String>,
    pub limit_ledger_size: Option<String>,
    pub gossip_port: Option<String>,
    pub dynamic_port_range: String,
    pub repair_validators: Option<Vec<String>>,
    pub gossip_validators: Option<Vec<String>>,
    pub replay_forks_threads: String,
    pub replay_transactions_threads: String,
    pub tvu_receive_threads: String,
    pub tvu_sigverify_threads: String,
}

/// The decided configuration.
pub struct LiteRpcConfig {
    pub ledger_path: PathBuf,
    /// The genesis hash the ledger must have, as its 32 bytes.
    pub expected_genesis_hash: Option<[u8; 32]>,
    pub expected_shred_version: Option<u16>,
    pub rpc_port: u16,
    pub private_rpc: bool,
    pub full_rpc_api: bool,
    pub enable_rpc_transaction_history: bool,
    pub geyser_plugin_config_files: Option<Vec<PathBuf>>,
    /// The account directories given, or else the ledger's `accounts`
    /// directory.
    pub account_paths: Vec<PathBuf>,
    /// The snapshot directory given, or else the ledger directory.
    pub snapshot_path: PathBuf,
    pub limit_ledger_size: Option<u64>,
    pub gossip_port: u16,
    pub dynamic_port_range: (u16, u16),
    /// The distinct validator keys to repair from, as their 32 bytes.
    pub repair_validators: Option<Vec<[u8; 32]>>,
    /// The distinct validator keys to gossip with, as their 32 bytes.
    pub gossip_validators: Option<Vec<[u8; 32]>>,
    pub replay_forks_threads: usize,
    pub replay_transactions_threads: usize,
    pub tvu_receive_threads: usize,
    pub tvu_sigverify_threads: usize,
}

/// Why the values were refused. The variants marked *fatal* are inputs on
/// which the command line's reader gives up outright rather than reporting a
/// configuration error.
#[derive(Debug)]
pub enum ConfigError {
    InvalidGenesisHash(ParseHashError),
    InvalidShredVersion(ParseIntError),
    /// Fatal.
    InvalidRpcPort(ParseIntError),
    InvalidRpcBindAddress,
    InvalidBindAddress,
    /// Fatal.
    InvalidGossipPort(ParseIntError),
    InvalidDynamicPortRange,
    /// Fatal.
    InvalidLimitLedgerSize(ParseIntError),
    /// Fatal.
    InvalidRepairValidator(ParsePubkeyError),
    /// Fatal.
    InvalidGossipValidator(ParsePubkeyError),
    /// Fatal.
    InvalidThreadCount(ThreadPool, ParseIntError),
    ZeroThreads(ThreadPool),
}

/// What was wrong with the values, without the details.
#[derive(Clone, Copy, Debug, PartialEq, Eq)]
pub enum Problem {
    GenesisHash,
    ShredVersion,
    RpcPort,
    RpcBindAddress,
    BindAddress,
    GossipPort,
    DynamicPortRange,
    LimitLedgerSize,
    RepairValidator,
    GossipValidator,
    ThreadCount(ThreadPool),
    ZeroThreads(ThreadPool),
}

impl ConfigError {
    /// The problem this error reports.
    pub open spec fn problem(self) -> Problem {
        match self {
            ConfigError::InvalidGenesisHash(_) => Problem::GenesisHash,
            ConfigError::InvalidShredVersion(_) => Problem::ShredVersion,
            ConfigError::InvalidRpcPort(_) => Problem::RpcPort,
            ConfigError::InvalidRpcBindAddress => Problem::RpcBindAddress,
            ConfigError::InvalidBindAddress => Problem::BindAddress,
            ConfigError::InvalidGossipPort(_) => Problem::GossipPort,
            ConfigError::InvalidDynamicPortRange => Problem::DynamicPortRange,
            ConfigError::InvalidLimitLedgerSize(_) => Problem::LimitLedgerSize,
            ConfigError::InvalidRepairValidator(_) => Problem::RepairValidator,
            ConfigError::InvalidGossipValidator(_) => Problem::GossipValidator,
            ConfigError::InvalidThreadCount(pool, _) => Problem::ThreadCount(pool),
            ConfigError::ZeroThreads(pool) => Problem::ZeroThreads(pool),
        }
    }

    /// Whether the reader of the command line gives up outright on this
    /// error instead of reporting it.
    pub open spec fn spec_is_fatal(&self) -> bool {
        match self {
            ConfigError::InvalidRpcPort(_) => true,
            ConfigError::InvalidGossipPort(_) => true,
            ConfigError::InvalidLimitLedgerSize(_) => true,
            ConfigError::InvalidRepairValidator(_) => true,
            ConfigError::InvalidGossipValidator(_) => true,
            ConfigError::InvalidThreadCount(_, _) => true,
            _ => false,
        }
    }

    /// The number-reading error this error carries, if any.
    pub open spec fn int_error(&self) -> Option<ParseIntError> {
        match self {
            ConfigError::InvalidShredVersion(e) => Some(*e),
            ConfigError::InvalidRpcPort(e) => Some(*e),
            ConfigError::InvalidGossipPort(e) => Some(*e),
            ConfigError::InvalidLimitLedgerSize(e) => Some(*e),
            ConfigError::InvalidThreadCount(_, e) => Some(*e),
            _ => None,
        }
    }

    /// The kind of the number-reading error this error carries, if any.
    pub fn int_error_kind(&self) -> (k: Option<IntTextError>)
        ensures
            k == (match self.int_error() {
                Some(e) => Some(int_error_kind(e)),
                None => None,
            }),
    {
        match self {
            ConfigError::InvalidShredVersion(e) => Some(parse_error_kind(e)),
            ConfigError::InvalidRpcPort(e) => Some(parse_error_kind(e)),
            ConfigError::InvalidGossipPort(e) => Some(parse_error_kind(e)),
            ConfigError::InvalidLimitLedgerSize(e) => Some(parse_error_kind(e)),
            ConfigError::InvalidThreadCount(_, e) => Some(parse_error_kind(e)),
            _ => None,
        }
    }

    /// Whether the reader of the command line gives up outright on this
    /// error instead of reporting it.
    #[verifier::when_used_as_spec(spec_is_fatal)]
    pub fn is_fatal(&self) -> (b: bool)
        ensures
            b == self.spec_is_fatal(),
    {
        match self {
            ConfigError::InvalidRpcPort(_) => true,
            ConfigError::InvalidGossipPort(_) => true,
            ConfigError::InvalidLimitLedgerSize(_) => true,
            ConfigError::InvalidRepairValidator(_) => true,
            ConfigError::InvalidGossipValidator(_) => true,
            ConfigError::InvalidThreadCount(_, _) => true,
            _ => false,
        }
    }
}

/// The text of an optional value.
pub open spec fn opt_text(o: Option<String>) -> Option<Seq<char>> {
    match o {
        Some(t) => Some(t@),
        None => None,
    }
}

/// The bytes of a list of keys.
pub open spec fn key_bytes(keys: Seq<[u8; 32]>) -> Seq<Seq<u8>> {
    keys.map_values(|k: [u8; 32]| k@)
}

/// The keys that a list of base58 texts decodes to.
pub open spec fn decoded_keys(ts: Seq<Seq<char>>) -> Set<Seq<u8>> {
    Set::new(|b: Seq<u8>| exists|i: int| 0 <= i < ts.len() && pubkey_text_bytes(#[trigger] ts[i]) == Some(b))
}

/// Every text of the list decodes to a key.
pub open spec fn all_keys_decode(ts: Seq<Seq<char>>) -> bool {
    forall|i: int| 0 <= i < ts.len() ==> (#[trigger] pubkey_text_bytes(ts[i])) is Some
}

/// The keys decoded from a list of texts, in order.
pub open spec fn decoded_seq(ts: Seq<Seq<char>>) -> Seq<Seq<u8>> {
    ts.map_values(|t: Seq<char>| pubkey_text_bytes(t).unwrap())
}

/// The distinct items of `s` in the order of their first occurrence.
pub open spec fn distinct_in_order(s: Seq<Seq<u8>>) -> Seq<Seq<u8>>
    decreases s.len(),
{
    if s.len() == 0 {
        Seq::empty()
    } else {
        let earlier = distinct_in_order(s.drop_last());
        if earlier.contains(s.last()) {
            earlier
        } else {
            earlier.push(s.last())
        }
    }
}

/// `keys` holds each key decoded from `ts` exactly once, and nothing else.
pub open spec fn is_key_set_of(keys: Seq<[u8; 32]>, ts: Seq<Seq<char>>) -> bool {
    &&& key_bytes(keys).no_duplicates()
    &&& key_bytes(keys).to_set() == decoded_keys(ts)
}

/// Whether two keys are the same 32 bytes.
fn same_key(a: &[u8; 32], b: &[u8; 32]) -> (r: bool)
    ensures
        r == (a@ == b@),
{
    let mut i: usize = 0;
    while i < 32
        invariant
            0 <= i <= 32,
            a@.len() == 32,
            b@.len() == 32,
            forall|j: int| 0 <= j < i ==> a@[j] == b@[j],
        decreases 32 - i,
    {
        if a[i] != b[i] {
            return false;
        }
        i = i + 1;
    }
    assert(a@ =~= b@);
    true
}

/// Whether `keys` already holds `key`.
fn holds_key(keys: &Vec<[u8; 32]>, key: &[u8; 32]) -> (r: bool)
    ensures
        r == key_bytes(keys@).contains(key@),
{
    let mut i: usize = 0;
    while i < keys.len()
        invariant
            0 <= i <= keys@.len(),
            forall|j: int| 0 <= j < i ==> keys@[j]@ != key@,
        decreases keys@.len() - i,
    {
        if same_key(&keys[i], key) {
            assert(key_bytes(keys@)[i as int] == key@);
            return true;
        }
        i = i + 1;
    }
    proof {
        if key_bytes(keys@).contains(key@) {
            let j = choose|j: int| 0 <= j < key_bytes(keys@).len() && key_bytes(keys@)[j] == key@;
            assert(keys@[j]@ == key@);
        }
    }
    false
}

/// Decodes a list of base58 validator keys into the set of distinct keys, in
/// the order of their first occurrence; fails with the error of the first
/// text that does not decode.
pub fn parse_validator_keys(list: &Vec<String>) -> (r: Result<Vec<[u8; 32]>, ParsePubkeyError>)
    ensures
        r is Ok <==> all_keys_decode(texts(*list)),
        r matches Ok(keys) ==> is_key_set_of(keys@, texts(*list)),
        r matches Ok(keys) ==> key_bytes(keys@) == distinct_in_order(decoded_seq(texts(*list))),
{
    let ghost ts = texts(*list);
    let mut keys: Vec<[u8; 32]> = Vec::new();
    let mut i: usize = 0;
    assert(key_bytes(keys@) =~= Seq::<Seq<u8>>::empty());
    assert(key_bytes(keys@).to_set() =~= decoded_keys(ts.take(0)));
    assert(decoded_seq(ts.take(0)) =~= Seq::<Seq<u8>>::empty());
    while i < list.len()
        invariant
            ts == texts(*list),
            0 <= i <= list@.len(),
            all_keys_decode(ts.take(i as int)),
            is_key_set_of(keys@, ts.take(i as int)),
            key_bytes(keys@) == distinct_in_order(decoded_seq(ts.take(i as int))),
        decreases list@.len() - i,
    {
        let key = match pubkey_from_str(list[i].as_str()) {
            Ok(key) => key,
            Err(e) => {
                assert(ts[i as int] == list@[i as int]@);
                return Err(e);
            },
        };
        let ghost before = keys@;
        assert(ts[i as int] == list@[i as int]@);
        if !holds_key(&keys, &key) {
            keys.push(key);
            assert(key_bytes(keys@) =~= key_bytes(before).push(key@));
        }
        let ghost done = ts.take(i + 1);
        assert(done =~= ts.take(i as int).push(ts[i as int]));
        assert(decoded_seq(done).drop_last() =~= decoded_seq(ts.take(i as int)));
        assert(decoded_seq(done).last() == key@);
        assert forall|k: int| 0 <= k < done.len() implies (#[trigger] pubkey_text_bytes(done[k])) is Some by {
            if k < i {
                assert(done[k] == ts.take(i as int)[k]);
            }
        }
        assert(key_bytes(keys@).to_set() =~= decoded_keys(done)) by {
            assert forall|b: Seq<u8>| #[trigger] decoded_keys(done).contains(b) implies key_bytes(keys@).to_set().contains(b) by {
                let k = choose|k: int| 0 <= k < done.len() && pubkey_text_bytes(#[trigger] done[k]) == Some(b);
                if k < i {
                    assert(ts.take(i as int)[k] == done[k]);
                    assert(decoded_keys(ts.take(i as int)).contains(b));
                    assert(key_bytes(before).to_set().contains(b));
                    let j = choose|j: int| 0 <= j < key_bytes(before).len() && key_bytes(before)[j] == b;
                    assert(key_bytes(keys@)[j] == b);
                } else {
                    assert(b == key@);
                    if key_bytes(before).contains(key@) {
                        let j = choose|j: int| 0 <= j < key_bytes(before).len() && key_bytes(before)[j] == b;
                        assert(key_bytes(keys@)[j] == b);
                    } else {
                        assert(key_bytes(keys@)[key_bytes(keys@).len() - 1] == b);
                    }
                }
            }
            assert forall|b: Seq<u8>| key_bytes(keys@).to_set().contains(b) implies #[trigger] decoded_keys(done).contains(b) by {
                let j = choose|j: int| 0 <= j < key_bytes(keys@).len() && key_bytes(keys@)[j] == b;
                if j < before.len() {
                    assert(key_bytes(before)[j] == b);
                    assert(key_bytes(before).to_set().contains(b));
                    assert(decoded_keys(ts.take(i as int)).contains(b));
                    let k = choose|k: int| 0 <= k < ts.take(i as int).len() && pubkey_text_bytes(#[trigger] ts.take(i as int)[k]) == Some(b);
                    assert(done[k] == ts.take(i as int)[k]);
                } else {
                    assert(b == key@);
                    assert(pubkey_text_bytes(done[i as int]) == Some(b));
                }
            }
        }
        i = i + 1;
    }
    assert(ts.take(i as int) =~= ts);
    Ok(keys)
}

/// The value of a decimal text that must fit in a `u16`.
pub open spec fn u16_text(t: Seq<char>) -> Option<nat> {
    bounded_text_value(t, u16::MAX as nat)
}

/// What is wrong with the size given to a thread pool, if anything.
pub open spec fn thread_problem(t: Seq<char>, pool: ThreadPool) -> Option<Problem> {
    match bounded_text_value(t, usize::MAX as nat) {
        None => Some(Problem::ThreadCount(pool)),
        Some(n) => if n == 0 {
            Some(Problem::ZeroThreads(pool))
        } else {
            None
        },
    }
}

/// The first thing wrong with the values, checked in this order: genesis
/// hash, shred version, RPC port, RPC bind address, bind address, gossip
/// port, dynamic port range, ledger size limit, repair validators, gossip
/// validators, and the four thread pools (each read, then checked non-zero).
pub open spec fn first_problem(v: CliValues, rpc_bind_ok: bool, bind_ok: bool) -> Option<Problem> {
    if v.expected_genesis_hash is Some && hash_text_bytes(v.expected_genesis_hash->0@) is None {
        Some(Problem::GenesisHash)
    } else if v.expected_shred_version is Some && u16_text(v.expected_shred_version->0@) is None {
        Some(Problem::ShredVersion)
    } else if u16_text(v.rpc_port@) is None {
        Some(Problem::RpcPort)
    } else if !rpc_bind_ok {
        Some(Problem::RpcBindAddress)
    } else if !bind_ok {
        Some(Problem::BindAddress)
    } else if v.gossip_port is Some && u16_text(v.gossip_port->0@) is None {
        Some(Problem::GossipPort)
    } else if port_range_text(v.dynamic_port_range@) is None {
        Some(Problem::DynamicPortRange)
    } else if v.limit_ledger_size is Some && bounded_text_value(
        v.limit_ledger_size->0@,
        u64::MAX as nat,
    ) is None {
        Some(Problem::LimitLedgerSize)
    } else if v.repair_validators is Some && !all_keys_decode(texts(v.repair_validators->0)) {
        Some(Problem::RepairValidator)
    } else if v.gossip_validators is Some && !all_keys_decode(texts(v.gossip_validators->0)) {
        Some(Problem::GossipValidator)
    } else if thread_problem(v.replay_forks_threads@, ThreadPool::ReplayForks) is Some {
        thread_problem(v.replay_forks_threads@, ThreadPool::ReplayForks)
    } else if thread_problem(v.replay_transactions_threads@, ThreadPool::ReplayTransactions) is Some {
        thread_problem(v.replay_transactions_threads@, ThreadPool::ReplayTransactions)
    } else if thread_problem(v.tvu_receive_threads@, ThreadPool::TvuReceive) is Some {
        thread_problem(v.tvu_receive_threads@, ThreadPool::TvuReceive)
    } else {
        thread_problem(v.tvu_sigverify_threads@, ThreadPool::TvuSigverify)
    }
}

/// A number-reading error is of the kind the documentation fixes for the
/// refused text, where it fixes one.
pub open spec fn int_error_documented(e: ParseIntError, text: Seq<char>, max: nat) -> bool {
    documented_int_error(text, max) matches Some(k) ==> int_error_kind(e) == k
}

/// The text given for a thread pool's size.
pub open spec fn pool_text(v: CliValues, pool: ThreadPool) -> Seq<char> {
    match pool {
        ThreadPool::ReplayForks => v.replay_forks_threads@,
        ThreadPool::ReplayTransactions => v.replay_transactions_threads@,
        ThreadPool::TvuReceive => v.tvu_receive_threads@,
        ThreadPool::TvuSigverify => v.tvu_sigverify_threads@,
    }
}

/// The number-reading error an error carries is of the documented kind for
/// the text it refused.
pub open spec fn error_detail(e: ConfigError, v: CliValues) -> bool {
    match e {
        ConfigError::InvalidShredVersion(x) => int_error_documented(
            x,
            v.expected_shred_version->0@,
            u16::MAX as nat,
        ),
        ConfigError::InvalidRpcPort(x) => int_error_documented(x, v.rpc_port@, u16::MAX as nat),
        ConfigError::InvalidGossipPort(x) => int_error_documented(
            x,
            v.gossip_port->0@,
            u16::MAX as nat,
        ),
        ConfigError::InvalidLimitLedgerSize(x) => int_error_documented(
            x,
            v.limit_ledger_size->0@,
            u64::MAX as nat,
        ),
        ConfigError::InvalidThreadCount(pool, x) => int_error_documented(
            x,
            pool_text(v, pool),
            usize::MAX as nat,
        ),
        _ => true,
    }
}

/// An optional decimal value read as it must be.
pub open spec fn opt_value_is(o: Option<Seq<char>>, max: nat, r: Option<nat>) -> bool {
    match o {
        None => r is None,
        Some(t) => r == bounded_text_value(t, max),
    }
}

/// An optional list of validator keys decided from an optional list of texts.
pub open spec fn keys_decided(o: Option<Vec<String>>, r: Option<Vec<[u8; 32]>>) -> bool {
    match (o, r) {
        (None, None) => true,
        (Some(ts), Some(keys)) => is_key_set_of(keys@, texts(ts)),
        _ => false,
    }
}

impl LiteRpcConfig {
    /// The invariant of a decided configuration: every thread pool has at
    /// least one thread, the port range is ordered, and no validator key is
    /// listed twice.
    pub open spec fn wf(&self) -> bool {
        &&& self.replay_forks_threads > 0
        &&& self.replay_transactions_threads > 0
        &&& self.tvu_receive_threads > 0
        &&& self.tvu_sigverify_threads > 0
        &&& self.dynamic_port_range.0 <= self.dynamic_port_range.1
        &&& self.repair_validators matches Some(keys) ==> key_bytes(keys@).no_duplicates()
        &&& self.gossip_validators matches Some(keys) ==> key_bytes(keys@).no_duplicates()
    }

    /// `self` is what the values decide.
    pub open spec fn decided_from(&self, v: CliValues) -> bool {
        &&& self.ledger_path == path_of(v.ledger_path@)
        &&& match (v.expected_genesis_hash, self.expected_genesis_hash) {
            (None, None) => true,
            (Some(t), Some(h)) => hash_text_bytes(t@) == Some(h@),
            _ => false,
        }
        &&& opt_value_is(
            opt_text(v.expected_shred_version),
            u16::MAX as nat,
            match self.expected_shred_version {
                Some(x) => Some(x as nat),
                None => None,
            },
        )
        &&& u16_text(v.rpc_port@) == Some(self.rpc_port as nat)
        &&& self.private_rpc == v.private_rpc
        &&& self.full_rpc_api == v.full_rpc_api
        &&& self.enable_rpc_transaction_history == v.enable_rpc_transaction_history
        &&& match (v.geyser_plugin_config, self.geyser_plugin_config_files) {
            (None, None) => true,
            (Some(ts), Some(ps)) => ps@ == paths_of(texts(ts)),
            _ => false,
        }
        &&& self.account_paths@ == (match v.account_paths {
            Some(ts) => paths_of(texts(ts)),
            None => seq![joined_path(path_of(v.ledger_path@), "accounts"@)],
        })
        &&& self.snapshot_path == path_of(
            match v.snapshots {
                Some(t) => t@,
                None => v.ledger_path@,
            },
        )
        &&& opt_value_is(
            opt_text(v.limit_ledger_size),
            u64::MAX as nat,
            match self.limit_ledger_size {
                Some(x) => Some(x as nat),
                None => None,
            },
        )
        &&& match v.gossip_port {
            Some(t) => u16_text(t@) == Some(self.gossip_port as nat),
            None => self.gossip_port == DEFAULT_GOSSIP_PORT,
        }
        &&& port_range_text(v.dynamic_port_range@) == Some(self.dynamic_port_range)
        &&& keys_decided(v.repair_validators, self.repair_validators)
        &&& keys_decided(v.gossip_validators, self.gossip_validators)
        &&& bounded_text_value(v.replay_forks_threads@, usize::MAX as nat) == Some(
            self.replay_forks_threads as nat,
        )
        &&& bounded_text_value(v.replay_transactions_threads@, usize::MAX as nat) == Some(
            self.replay_transactions_threads as nat,
        )
        &&& bounded_text_value(v.tvu_receive_threads@, usize::MAX as nat) == Some(
            self.tvu_receive_threads as nat,
        )
        &&& bounded_text_value(v.tvu_sigverify_threads@, usize::MAX as nat) == Some(
            self.tvu_sigverify_threads as nat,
        )
    }
}

/// Reads the size of a thread pool: refused when it is not a number
/// (`InvalidThreadCount`, fatal) or when it is zero (`ZeroThreads`).
pub fn thread_count(text: &String, pool: ThreadPool) -> (r: Result<usize, ConfigError>)
    ensures
        match r {
            Ok(n) => thread_problem(text@, pool) is None && bounded_text_value(
                text@,
                usize::MAX as nat,
            ) == Some(n as nat),
            Err(e) => thread_problem(text@, pool) == Some(e.problem()) && (e matches ConfigError::InvalidThreadCount(p, x) ==> p == pool && int_error_documented(
                x,
                text@,
                usize::MAX as nat,
            )),
        },
{
    match parse_usize(text.as_str()) {
        Err(e) => Err(ConfigError::InvalidThreadCount(pool, e)),
        Ok(n) => if n == 0 {
            Err(ConfigError::ZeroThreads(pool))
        } else {
            Ok(n)
        },
    }
}

impl LiteRpcConfig {
    /// Decides the configuration from the values given on the command line.
    /// The validity of the RPC bind address and of the bind address is decided
    /// by whoever parses them and handed in. The first problem found, in the
    /// order of `first_problem`, is the error; with none, every value is read
    /// as `decided_from` states.
    pub fn from_values(values: CliValues, rpc_bind_address_valid: bool, bind_address_valid: bool) -> (r:
        Result<LiteRpcConfig, ConfigError>)
        ensures
            match r {
                Ok(c) => first_problem(values, rpc_bind_address_valid, bind_address_valid) is None
                    && c.decided_from(values) && c.wf(),
                Err(e) => first_problem(values, rpc_bind_address_valid, bind_address_valid) == Some(
                    e.problem(),
                ) && error_detail(e, values),
            },
    {
        let CliValues {
            ledger_path,
            expected_genesis_hash,
            expected_shred_version,
            rpc_port,
            private_rpc,
            full_rpc_api,
            enable_rpc_transaction_history,
            geyser_plugin_config,
            account_paths,
            snapshots,
            limit_ledger_size,
            gossip_port,
            dynamic_port_range,
            repair_validators,
            gossip_validators,
            replay_forks_threads,
            replay_transactions_threads,
            tvu_receive_threads,
            tvu_sigverify_threads,
        } = values;
        let expected_genesis_hash = match expected_genesis_hash {
            Some(text) => match hash_from_str(text.as_str()) {
                Ok(bytes) => Some(bytes),
                Err(e) => return Err(ConfigError::InvalidGenesisHash(e)),
            },
            None => None,
        };
        let expected_shred_version = match expected_shred_version {
            Some(text) => match parse_u16(text.as_str()) {
                Ok(version) => Some(version),
                Err(e) => return Err(ConfigError::InvalidShredVersion(e)),
            },
            None => None,
        };
        let rpc_port = match parse_u16(rpc_port.as_str()) {
            Ok(port) => port,
            Err(e) => return Err(ConfigError::InvalidRpcPort(e)),
        };
        if !rpc_bind_address_valid {
            return Err(ConfigError::InvalidRpcBindAddress);
        }
        if !bind_address_valid {
            return Err(ConfigError::InvalidBindAddress);
        }
        let gossip_port = match gossip_port {
            Some(text) => match parse_u16(text.as_str()) {
                Ok(port) => port,
                Err(e) => return Err(ConfigError::InvalidGossipPort(e)),
            },
            None => DEFAULT_GOSSIP_PORT,
        };
        let dynamic_port_range = match parse_port_range(dynamic_port_range.as_str()) {
            Some(range) => range,
            None => return Err(ConfigError::InvalidDynamicPortRange),
        };
        let snapshot_path = match snapshots {
            Some(path) => path_from(path),
            None => path_from(ledger_path.clone()),
        };
        let ledger_path = path_from(ledger_path);
        let account_paths = match account_paths {
            Some(list) => paths_from(&list),
            None => {
                let mut paths: Vec<PathBuf> = Vec::new();
                paths.push(path_join(&ledger_path, "accounts"));
                paths
            },
        };
        let geyser_plugin_config_files = match geyser_plugin_config {
            Some(list) => Some(paths_from(&list)),
            None => None,
        };
        let limit_ledger_size = match limit_ledger_size {
            Some(text) => match parse_u64(text.as_str()) {
                Ok(limit) => Some(limit),
                Err(e) => return Err(ConfigError::InvalidLimitLedgerSize(e)),
            },
            None => None,
        };
        let repair_validators = match repair_validators {
            Some(list) => match parse_validator_keys(&list) {
                Ok(keys) => Some(keys),
                Err(e) => return Err(ConfigError::InvalidRepairValidator(e)),
            },
            None => None,
        };
        let gossip_validators = match gossip_validators {
            Some(list) => match parse_validator_keys(&list) {
                Ok(keys) => Some(keys),
                Err(e) => return Err(ConfigError::InvalidGossipValidator(e)),
            },
            None => None,
        };
        let replay_forks_threads = match thread_count(&replay_forks_threads, ThreadPool::ReplayForks) {
            Ok(n) => n,
            Err(e) => return Err(e),
        };
        let replay_transactions_threads = match thread_count(
            &replay_transactions_threads,
            ThreadPool::ReplayTransactions,
        ) {
            Ok(n) => n,
            Err(e) => return Err(e),
        };
        let tvu_receive_threads = match thread_count(&tvu_receive_threads, ThreadPool::TvuReceive) {
            Ok(n) => n,
            Err(e) => return Err(e),
        };
        let tvu_sigverify_threads = match thread_count(
            &tvu_sigverify_threads,
            ThreadPool::TvuSigverify,
        ) {
            Ok(n) => n,
            Err(e) => return Err(e),
        };
        Ok(
            LiteRpcConfig {
                ledger_path,
                expected_genesis_hash,
                expected_shred_version,
                rpc_port,
                private_rpc,
                full_rpc_api,
                enable_rpc_transaction_history,
                geyser_plugin_config_files,
                account_paths,
                snapshot_path,
                limit_ledger_size,
                gossip_port,
                dynamic_port_range,
                repair_validators,
                gossip_validators,
                replay_forks_threads,
                replay_transactions_threads,
                tvu_receive_threads,
                tvu_sigverify_threads,
            },
        )
    }
}

/// The paths of a decided configuration follow the values one for one: the
/// i-th plugin configuration file is the path of the i-th text given, with as
/// many files as texts; likewise the account directories, which are the
/// ledger's `accounts` directory alone when none are given; the snapshot
/// directory is the one given, or else the ledger directory.
pub proof fn lemma_decided_paths(c: LiteRpcConfig, v: CliValues)
    requires
        c.decided_from(v),
    ensures
        c.ledger_path == path_of(v.ledger_path@),
        v.geyser_plugin_config is None <==> c.geyser_plugin_config_files is None,
        v.geyser_plugin_config matches Some(ts) ==> c.geyser_plugin_config_files matches Some(ps)
            && ps@.len() == ts@.len() && forall|i: int|
            0 <= i < ts@.len() ==> #[trigger] ps@[i] == path_of(ts@[i]@),
        v.account_paths matches Some(ts) ==> c.account_paths@.len() == ts@.len() && forall|i: int|
            0 <= i < ts@.len() ==> #[trigger] c.account_paths@[i] == path_of(ts@[i]@),
        v.account_paths is None ==> c.account_paths@.len() == 1 && c.account_paths@[0]
            == joined_path(path_of(v.ledger_path@), "accounts"@),
        v.snapshots matches Some(t) ==> c.snapshot_path == path_of(t@),
        v.snapshots is None ==> c.snapshot_path == path_of(v.ledger_path@),
{
}

/// The numbers of a decided configuration are those the texts denote, and
/// the defaults where no text is given: the gossip port is 8001 without a
/// value; every thread pool has the size its text denotes; the port range is
/// the two ports given, in order.
pub proof fn lemma_decided_numbers(c: LiteRpcConfig, v: CliValues)
    requires
        c.decided_from(v),
    ensures
        v.gossip_port is None ==> c.gossip_port == 8001,
        v.gossip_port matches Some(t) ==> u16_text(t@) == Some(c.gossip_port as nat),
        u16_text(v.rpc_port@) == Some(c.rpc_port as nat),
        bounded_text_value(v.replay_forks_threads@, usize::MAX as nat) == Some(
            c.replay_forks_threads as nat,
        ),
        bounded_text_value(v.replay_transactions_threads@, usize::MAX as nat) == Some(
            c.replay_transactions_threads as nat,
        ),
        bounded_text_value(v.tvu_receive_threads@, usize::MAX as nat) == Some(
            c.tvu_receive_threads as nat,
        ),
        bounded_text_value(v.tvu_sigverify_threads@, usize::MAX as nat) == Some(
            c.tvu_sigverify_threads as nat,
        ),
        port_range_text(v.dynamic_port_range@) == Some(c.dynamic_port_range),
        c.dynamic_port_range.0 <= c.dynamic_port_range.1,
{
}

} // verus!
