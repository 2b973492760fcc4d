//! What the server and the worker take from their environment, and where the server may listen.

use vstd::prelude::*;
use crate::number::{
    decimal, decimal_reads_back, parse_i64, parse_trimmed_u32, parse_unsigned, set_numbers_are_read,
    signed_decimal, signed_decimal_reads_back, signed_value, trimmed_value, unsigned_value,
};
use crate::text::{
    blank_is_all_white, case_is_all_that_differs, eq_ignore_ascii_case, is_white_space,
    same_ignoring_ascii_case, same_text, str_of, text_of, trim, trimmed,
    white_space_around_is_ignored,
};

verus! {

// ---------------------------------------------------------------------------------------------
// Where to listen
// ---------------------------------------------------------------------------------------------

/// An address to listen on: the four numbers of an IPv4 address, or an IPv6 one.
#[derive(Debug, Clone, Copy)]
pub enum IpAddress {
    V4(u8, u8, u8, u8),
    V6(u128),
}

/// Only the host itself can reach the address.
pub open spec fn is_loopback(address: IpAddress) -> bool {
    match address {
        IpAddress::V4(a, _, _, _) => a == 127,
        IpAddress::V6(n) => n == 1,
    }
}

/// Whether only the host itself can reach the address.
pub fn loopback(address: &IpAddress) -> (r: bool)
    ensures
        r == is_loopback(*address),
{
    match address {
        IpAddress::V4(a, _, _, _) => *a == 127,
        IpAddress::V6(n) => *n == 1,
    }
}

/// Why an address that is none is refused.
pub open spec fn not_an_address(bind: Seq<char>, detail: Seq<char>) -> Seq<char> {
    "invalid bind address '"@ + bind + "': "@ + detail + "; use an ip:port like 127.0.0.1:8080"@
}

/// Why an address that others can reach is refused.
pub open spec fn exposed_address(bind: Seq<char>) -> Seq<char> {
    "refusing to bind "@ + bind
        + ": it is reachable off-host and the server speaks plain HTTP, so bearer tokens would cross the network in cleartext. Terminate TLS at a reverse proxy and set MNESTIC_TRUST_PROXY=1, or bind a loopback address. See DEPLOYMENT.md."@
}

/// Whether the server may listen at `bind`. The server speaks plain HTTP, so it listens where
/// only the host reaches it, or where the operator says that a proxy in front of it speaks TLS.
/// `parsed` is the address that `bind` was read as, or what is wrong with it; a host name is not
/// an address.
pub fn check_bind_safety(bind: &str, parsed: Result<IpAddress, String>, trust_proxy: bool) -> (r:
    Result<(), String>)
    ensures
        r is Ok <==> (parsed matches Ok(address) && (is_loopback(address) || trust_proxy)),
        parsed is Ok && trust_proxy ==> r is Ok,
        parsed matches Ok(IpAddress::V4(a, _, _, _)) ==> (r is Ok <==> a == 127 || trust_proxy),
        parsed matches Ok(IpAddress::V6(n)) ==> (r is Ok <==> n == 1 || trust_proxy),
        parsed is Err ==> r is Err,
        r matches Err(message) ==> message@ == match parsed {
            Ok(_) => exposed_address(bind@),
            Err(detail) => not_an_address(bind@, detail@),
        },
{
    match parsed {
        Err(detail) => {
            let mut message: String = "invalid bind address '".to_owned();
            message.append(bind);
            message.append("': ");
            message.append(detail.as_str());
            message.append("; use an ip:port like 127.0.0.1:8080");
            Err(message)
        },
        Ok(address) => {
            if loopback(&address) || trust_proxy {
                Ok(())
            } else {
                let mut message: String = "refusing to bind ".to_owned();
                message.append(bind);
                message.append(
                    ": it is reachable off-host and the server speaks plain HTTP, so bearer tokens would cross the network in cleartext. Terminate TLS at a reverse proxy and set MNESTIC_TRUST_PROXY=1, or bind a loopback address. See DEPLOYMENT.md.",
                );
                Err(message)
            }
        },
    }
}

/// The operator says that a proxy speaks TLS.
pub open spec fn trusts_proxy(raw: Option<Seq<char>>) -> bool {
    raw is Some && (raw->0 == "1"@ || same_ignoring_ascii_case(raw->0, "true"@))
}

/// Whether the operator says that a proxy speaks TLS.
pub fn trust_proxy(raw: Option<&str>) -> (r: bool)
    ensures
        r == trusts_proxy(str_of(raw)),
{
    match raw {
        Some(value) => same_text(value, "1") || eq_ignore_ascii_case(value, "true"),
        None => false,
    }
}

/// Where the server listens: on the host alone where nothing is set.
pub fn bind_address(raw: Option<String>) -> (r: String)
    ensures
        r@ == match raw {
            Some(bind) => bind@,
            None => "127.0.0.1:8080"@,
        },
{
    match raw {
        Some(bind) => bind,
        None => "127.0.0.1:8080".to_owned(),
    }
}

// ---------------------------------------------------------------------------------------------
// Sizes, models and logs
// ---------------------------------------------------------------------------------------------

/// The size of the connection pool where none is set.
pub const DEFAULT_DB_MAX_CONNECTIONS: u32 = 16;

/// The size of the connection pool: the number set, or the default where none, no number, or
/// zero is.
pub open spec fn pool_size(raw: Option<Seq<char>>) -> nat {
    match trimmed_value(raw, u32::MAX as nat) {
        Some(n) => if n > 0 {
            n
        } else {
            DEFAULT_DB_MAX_CONNECTIONS as nat
        },
        None => DEFAULT_DB_MAX_CONNECTIONS as nat,
    }
}

/// The size of the connection pool.
pub fn db_max_connections(raw: Option<&str>) -> (r: u32)
    ensures
        r == pool_size(str_of(raw)),
        r > 0,
{
    match parse_trimmed_u32(raw) {
        Some(n) => if n > 0 {
            n
        } else {
            DEFAULT_DB_MAX_CONNECTIONS
        },
        None => DEFAULT_DB_MAX_CONNECTIONS,
    }
}

/// Whether logs are written as JSON.
pub fn json_logs(raw: Option<&str>) -> (r: bool)
    ensures
        r == (raw is Some && same_ignoring_ascii_case(raw->0@, "json"@)),
{
    match raw {
        Some(format) => eq_ignore_ascii_case(format, "json"),
        None => false,
    }
}

/// Whether the model providers are stand-ins that need no keys, for demonstrations.
pub fn mock_providers(raw: Option<&str>) -> (r: bool)
    ensures
        r == (str_of(raw) == Some("1"@)),
{
    match raw {
        Some(value) => same_text(value, "1"),
        None => false,
    }
}

/// The model that extracts memories, where one is set; the provider's own otherwise.
pub open spec fn chosen_model(raw: Option<Seq<char>>) -> Option<Seq<char>> {
    match raw {
        Some(model) => if trimmed(model).len() > 0 {
            Some(trimmed(model))
        } else {
            None
        },
        None => None,
    }
}

/// The model that extracts memories, where one is set.
pub fn extract_model(raw: Option<&str>) -> (r: Option<String>)
    ensures
        text_of(r) == chosen_model(str_of(raw)),
{
    match raw {
        Some(model) => {
            let name: &str = trim(model);
            if name.is_empty() {
                None
            } else {
                Some(name.to_owned())
            }
        },
        None => None,
    }
}

// ---------------------------------------------------------------------------------------------
// The worker
// ---------------------------------------------------------------------------------------------

/// How long an idle worker waits, in seconds, where nothing is set.
pub const DEFAULT_POLL_SECS: u64 = 5;

/// How long a claim on a source lasts, in seconds, where nothing is set.
pub const DEFAULT_LEASE_SECS: i64 = 300;

/// How many sources of a tenant are worked on in one cycle where nothing is set.
pub const DEFAULT_BATCH: usize = 16;

/// What a worker goes by.
#[derive(Debug, Clone, Copy)]
pub struct WorkerSettings {
    pub poll_secs: u64,
    pub lease_secs: i64,
    pub batch: usize,
}

/// The number set, where it is one that is at most `max`, and the default otherwise.
pub open spec fn unsigned_or(raw: Option<Seq<char>>, max: nat, default: nat) -> nat {
    match raw {
        Some(text) => match unsigned_value(text) {
            Some(n) => if n <= max {
                n
            } else {
                default
            },
            None => default,
        },
        None => default,
    }
}

/// The number set, where it is one that fits 64 signed bits, and the default otherwise.
pub open spec fn signed_or(raw: Option<Seq<char>>, default: int) -> int {
    match raw {
        Some(text) => match signed_value(text) {
            Some(n) => if i64::MIN <= n <= i64::MAX {
                n
            } else {
                default
            },
            None => default,
        },
        None => default,
    }
}

/// What a worker goes by, from what is set.
pub fn worker_settings(poll: Option<&str>, lease: Option<&str>, batch: Option<&str>) -> (r:
    WorkerSettings)
    ensures
        r.poll_secs == unsigned_or(str_of(poll), u64::MAX as nat, DEFAULT_POLL_SECS as nat),
        r.lease_secs == signed_or(str_of(lease), DEFAULT_LEASE_SECS as int),
        r.batch == unsigned_or(str_of(batch), usize::MAX as nat, DEFAULT_BATCH as nat),
        poll is None ==> r.poll_secs == 5,
        lease is None ==> r.lease_secs == 300,
        batch is None ==> r.batch == 16,
{
    let poll_secs: u64 = match poll {
        Some(text) => match parse_unsigned(text, u64::MAX) {
            Some(n) => n,
            None => DEFAULT_POLL_SECS,
        },
        None => DEFAULT_POLL_SECS,
    };
    let lease_secs: i64 = match lease {
        Some(text) => match parse_i64(text) {
            Some(n) => n,
            None => DEFAULT_LEASE_SECS,
        },
        None => DEFAULT_LEASE_SECS,
    };
    let batch: usize = match batch {
        Some(text) => match parse_unsigned(text, usize::MAX as u64) {
            Some(n) => n as usize,
            None => DEFAULT_BATCH,
        },
        None => DEFAULT_BATCH,
    };
    WorkerSettings { poll_secs, lease_secs, batch }
}

/// The sources worked on in a cycle so far, with those of one more tenant; a tenant that failed
/// adds none. There is no sum where it does not fit.
pub fn tally(total: usize, processed: Option<usize>) -> (r: Option<usize>)
    ensures
        match processed {
            None => r == Some(total),
            Some(n) => if total + n <= usize::MAX {
                r == Some((total + n) as usize)
            } else {
                r is None
            },
        },
{
    match processed {
        None => Some(total),
        Some(n) => total.checked_add(n),
    }
}

/// How long a worker waits after a cycle, in seconds: not at all while it finds work.
pub fn nap_secs(processed: usize, poll_secs: u64) -> (r: u64)
    ensures
        r == if processed > 0 {
            0
        } else {
            poll_secs
        },
{
    if processed > 0 {
        0
    } else {
        poll_secs
    }
}

// ---------------------------------------------------------------------------------------------
// Laws
// ---------------------------------------------------------------------------------------------

/// A proxy is trusted exactly where the setting is `1` or `true`, the latter in whatever case.
pub proof fn only_one_and_true_trust_the_proxy(raw: Seq<char>)
    ensures
        trusts_proxy(Some(raw)) <==> raw == seq!['1'] || raw.len() == 4 && {
            &&& raw[0] == 't' || raw[0] == 'T'
            &&& raw[1] == 'r' || raw[1] == 'R'
            &&& raw[2] == 'u' || raw[2] == 'U'
            &&& raw[3] == 'e' || raw[3] == 'E'
        },
        !trusts_proxy(None),
{
    let word = "true"@;
    reveal_strlit("true");
    reveal_strlit("1");
    assert("1"@ =~= seq!['1']);
    case_is_all_that_differs(raw, word);
    assert(word.len() == 4);
    assert(word[0] == 't' && word[1] == 'r' && word[2] == 'u' && word[3] == 'e');
    if same_ignoring_ascii_case(raw, word) {
        assert(raw[0] == word[0] || raw[0] != word[0]);
        assert(raw[1] == word[1] || raw[1] != word[1]);
        assert(raw[2] == word[2] || raw[2] != word[2]);
        assert(raw[3] == word[3] || raw[3] != word[3]);
    }
}

/// The pool has the size that is set, whatever white space is around it, and sixteen connections
/// where zero, nothing, or a number too large is.
pub proof fn the_pool_has_the_size_that_is_set(before: Seq<char>, n: nat, behind: Seq<char>)
    requires
        forall|i: int| 0 <= i < before.len() ==> is_white_space(#[trigger] before[i]),
        forall|i: int| 0 <= i < behind.len() ==> is_white_space(#[trigger] behind[i]),
    ensures
        0 < n <= u32::MAX ==> pool_size(Some(before + decimal(n) + behind)) == n,
        n == 0 || n > u32::MAX ==> pool_size(Some(before + decimal(n) + behind)) == 16,
        pool_size(None) == 16,
{
    set_numbers_are_read(before, n, behind, u32::MAX as nat);
}

/// A number that is set counts where it fits, and the default where it does not.
pub proof fn numbers_that_fit_count(n: nat, max: nat, default: nat, m: int, other: int)
    ensures
        n <= max ==> unsigned_or(Some(decimal(n)), max, default) == n,
        n > max ==> unsigned_or(Some(decimal(n)), max, default) == default,
        unsigned_or(None, max, default) == default,
        i64::MIN <= m <= i64::MAX ==> signed_or(Some(signed_decimal(m)), other) == m,
        m < i64::MIN || m > i64::MAX ==> signed_or(Some(signed_decimal(m)), other) == other,
        signed_or(None, other) == other,
{
    decimal_reads_back(n);
    signed_decimal_reads_back(m);
}

/// The model that is set is used without the white space around it, and none is set by white
/// space alone.
pub proof fn models_are_named_without_white_space(
    before: Seq<char>,
    name: Seq<char>,
    behind: Seq<char>,
)
    requires
        forall|i: int| 0 <= i < before.len() ==> is_white_space(#[trigger] before[i]),
        forall|i: int| 0 <= i < behind.len() ==> is_white_space(#[trigger] behind[i]),
    ensures
        name.len() > 0 && !is_white_space(name[0]) && !is_white_space(name.last())
            ==> chosen_model(Some(before + name + behind)) == Some(name),
        chosen_model(Some(before)) is None,
        chosen_model(None) is None,
{
    if name.len() > 0 && !is_white_space(name[0]) && !is_white_space(name.last()) {
        white_space_around_is_ignored(before, name, behind);
    }
    blank_is_all_white(before);
}

/// Only the host reaches an address exactly where its first number is 127, whatever the others
/// are, or where it is the first of the IPv6 addresses after the unspecified one.
pub proof fn the_whole_loopback_block_is_the_hosts(a: u8, b: u8, c: u8, d: u8, n: u128)
    ensures
        is_loopback(IpAddress::V4(127, b, c, d)),
        a != 127 ==> !is_loopback(IpAddress::V4(a, b, c, d)),
        is_loopback(IpAddress::V6(1)),
        n != 1 ==> !is_loopback(IpAddress::V6(n)),
{
}

} // verus!
