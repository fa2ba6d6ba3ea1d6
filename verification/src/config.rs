//! Process configuration: every knob with its default, and the exact
//! parsers that read overriding values. The environment itself is read
//! outside the library; what arrives here are plain strings.

use vstd::prelude::*;
use crate::text::all_digits;
use crate::text::chars_vec;
use crate::text::dec_val;
use crate::text::parse_u64_range;

verus! {

/// The configuration one process runs under.
pub struct Config {
    pub cache_capacity: i64,
    pub db_name: Vec<char>,
    pub default_m: i64,
    pub ef_construction: i64,
    pub max_datasize: i64,
    pub data_path: Vec<char>,
    pub token_expire_days: i64,
    pub jwt_token_key: Vec<char>,
    pub enable_security: i64,
    pub enable_swagger_ui: bool,
    pub standalone: bool,
    pub instance_id: u64,
    pub http_addr: Vec<char>,
    pub rpc_addr: Vec<char>,
    pub raft_heartbeat_interval: u64,
    pub raft_election_timeout: u64,
}

impl Config {
    /// The defaults every knob starts from.
    pub fn new() -> (r: Config)
        ensures
            r.cache_capacity == 100,
            r.db_name@ == ":memory:"@,
            r.default_m == 16,
            r.ef_construction == 100,
            r.max_datasize == 1_000_000,
            r.data_path@ == "data/"@,
            r.token_expire_days == 30,
            r.enable_security == 0,
            r.enable_swagger_ui == false,
            r.standalone == false,
            r.instance_id == 1,
            r.http_addr@ == "0.0.0.0:21001"@,
            r.rpc_addr@ == "0.0.0.0:22001"@,
            r.raft_heartbeat_interval == 250,
            r.raft_election_timeout == 299,
    {
        Config {
            cache_capacity: 100,
            db_name: chars_vec(":memory:"),
            default_m: 16,
            ef_construction: 100,
            max_datasize: 1_000_000,
            data_path: chars_vec("data/"),
            token_expire_days: 30,
            jwt_token_key: chars_vec(
                "atinyvectors_jwt_token_key_is_really_good_and_i_hope_so_much_whatever_you_want",
            ),
            enable_security: 0,
            enable_swagger_ui: false,
            standalone: false,
            instance_id: 1,
            http_addr: chars_vec("0.0.0.0:21001"),
            rpc_addr: chars_vec("0.0.0.0:22001"),
            raft_heartbeat_interval: 250,
            raft_election_timeout: 299,
        }
    }

    /// The configuration a process starts from before any override.
    pub fn get_config() -> (r: Config)
        ensures
            r.raft_heartbeat_interval == 250,
            r.raft_election_timeout == 299,
            r.enable_security == 0,
            r.standalone == false,
    {
        Config::new()
    }
}

/// What a numeric override means: the run of digits as a value, or the
/// default when the text is not a plain number in range.
pub open spec fn u64_or_default(s: Seq<char>, d: u64) -> u64 {
    if s.len() > 0 && all_digits(s) && dec_val(s) <= u64::MAX {
        dec_val(s) as u64
    } else {
        d
    }
}

/// Reads a numeric override, falling back to the default.
pub fn parse_u64_or(s: &str, d: u64) -> (r: u64)
    ensures
        r == u64_or_default(s@, d),
{
    let cs = chars_vec(s);
    match parse_u64_range(&cs, 0, cs.len()) {
        Some(n) => {
            proof {
                assert(cs@.subrange(0, cs@.len() as int) =~= s@);
            }
            n
        },
        None => {
            proof {
                assert(cs@.subrange(0, cs@.len() as int) =~= s@);
            }
            d
        },
    }
}

/// Reads a numeric override into a signed knob; values beyond `i64` fall
/// back to the default, and negative overrides are not part of the knobs'
/// domain.
pub fn parse_i64_or(s: &str, d: i64) -> (r: i64)
    requires
        d >= 0,
    ensures
        r == if u64_or_default(s@, d as u64) <= i64::MAX as u64 {
            u64_or_default(s@, d as u64) as i64
        } else {
            d
        },
{
    let n = parse_u64_or(s, d as u64);
    if n <= i64::MAX as u64 {
        n as i64
    } else {
        d
    }
}

/// What a boolean override means: exactly `true` or `false`, else the
/// default.
pub open spec fn bool_or_default(s: Seq<char>, d: bool) -> bool {
    if s == "true"@ {
        true
    } else if s == "false"@ {
        false
    } else {
        d
    }
}

/// Reads a boolean override, falling back to the default.
pub fn parse_bool_or(s: &str, d: bool) -> (r: bool)
    ensures
        r == bool_or_default(s@, d),
{
    let cs = chars_vec(s);
    if crate::text::chars_eq(&cs, &chars_vec("true")) {
        true
    } else if crate::text::chars_eq(&cs, &chars_vec("false")) {
        false
    } else {
        d
    }
}

/// The startup rule on consensus timing: the heartbeat must beat faster
/// than the election timeout, and stay under 300 ms. A process with an
/// invalid pair refuses to start.
pub open spec fn valid_raft_timing(heartbeat: u64, election: u64) -> bool {
    heartbeat < election && heartbeat < 300
}

/// Decides the consensus timing rule.
pub fn raft_timing_valid(heartbeat: u64, election: u64) -> (r: bool)
    ensures
        r == valid_raft_timing(heartbeat, election),
{
    heartbeat < election && heartbeat < 300
}

} // verus!
