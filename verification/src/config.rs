//! Process configuration: the decisions taken over raw environment
//! values — defaults, required values, and number parsing. Reading the
//! environment itself is the caller's job; it hands the raw values in.
use vstd::prelude::*;

use crate::numeric::{parse_u64, parse_u64_spec};
use crate::text::push_char;

verus! {

/// The raw environment values the node starts from; `None` where the
/// variable is unset.
pub struct EnvValues {
    pub redis_url: Option<String>,
    pub apibara_api_key: Option<String>,
    pub contract_address: Option<String>,
    pub server_host: Option<String>,
    pub server_port: Option<String>,
    pub starting_block: Option<String>,
    pub private_key: Option<String>,
    pub p2p_listen_addr: Option<String>,
    pub p2p_bootstrap_peers: Option<String>,
}

/// The gossip layer's addresses, still as text; the transport layer
/// parses them into multiaddresses when it builds the swarm.
#[derive(Debug)]
pub struct P2PConfig {
    pub listen_address: String,
    pub bootstrap_peers: Vec<String>,
}

/// The node's validated configuration.
#[derive(Debug)]
pub struct Config {
    pub redis_url: String,
    pub apibara_api_key: String,
    pub contract_address: String,
    pub server_host: String,
    pub server_port: u16,
    pub starting_block: u64,
    pub private_key: String,
    pub p2p: P2PConfig,
}

/// A fatal startup error: a required value is missing or a numeric
/// value does not parse.
#[derive(PartialEq, Eq, Structural, Clone, Copy, Debug)]
pub enum ConfigError {
    /// The stream API credential is not set.
    MissingApiKey,
    /// The signing private key is not set.
    MissingPrivateKey,
    /// The server port is not a number that fits a port.
    InvalidServerPort,
    /// The starting block is not a number.
    InvalidStartingBlock,
}

/// The comma-separated pieces of `s` gathered so far, and the piece
/// being read.
pub open spec fn split_acc(s: Seq<char>) -> (Seq<Seq<char>>, Seq<char>)
    decreases s.len(),
{
    if s.len() == 0 {
        (Seq::empty(), Seq::empty())
    } else {
        let prior = split_acc(s.drop_last());
        if s.last() == ',' {
            if prior.1.len() > 0 {
                (prior.0.push(prior.1), Seq::empty())
            } else {
                (prior.0, Seq::empty())
            }
        } else {
            (prior.0, prior.1.push(s.last()))
        }
    }
}

/// The comma-separated pieces of `s`, empty entries ignored.
pub open spec fn split_nonempty(s: Seq<char>) -> Seq<Seq<char>> {
    let acc = split_acc(s);
    if acc.1.len() > 0 {
        acc.0.push(acc.1)
    } else {
        acc.0
    }
}

/// Splits a comma-separated address list, dropping empty entries.
pub fn split_peer_list(s: &str) -> (r: Vec<String>)
    ensures
        r@.map_values(|p: String| p@) == split_nonempty(s@),
{
    let n = s.unicode_len();
    let mut pieces: Vec<String> = Vec::new();
    let mut current = String::new();
    let mut i: usize = 0;
    while i < n
        invariant
            i <= n,
            n == s@.len(),
            pieces@.map_values(|p: String| p@) == split_acc(s@.take(i as int)).0,
            current@ == split_acc(s@.take(i as int)).1,
        decreases n - i,
    {
        let c = s.get_char(i);
        proof {
            assert(s@.take(i + 1).drop_last() =~= s@.take(i as int));
            assert(s@.take(i + 1).last() == s@[i as int]);
        }
        if c == ',' {
            if current.unicode_len() > 0 {
                let ghost pieces0 = pieces@;
                let ghost piece_view = current@;
                pieces.push(current);
                proof {
                    assert(pieces@.map_values(|p: String| p@) =~= pieces0.map_values(
                        |p: String| p@,
                    ).push(piece_view));
                }
                current = String::new();
            }
        } else {
            push_char(&mut current, c);
        }
        i = i + 1;
    }
    proof {
        assert(s@.take(n as int) =~= s@);
    }
    if current.unicode_len() > 0 {
        let ghost pieces0 = pieces@;
        let ghost piece_view = current@;
        pieces.push(current);
        proof {
            assert(pieces@.map_values(|p: String| p@) =~= pieces0.map_values(
                |p: String| p@,
            ).push(piece_view));
        }
    }
    pieces
}

/// Takes the value of an optional text, or the given fallback.
fn text_or<'a>(value: &'a Option<String>, fallback: &'a str) -> (r: &'a str)
    ensures
        match value {
            Some(text) => r@ == text@,
            None => r@ == fallback@,
        },
{
    match value {
        Some(text) => text.as_str(),
        None => fallback,
    }
}

impl P2PConfig {
    /// Builds the gossip addresses from the raw values: the listen
    /// address defaults to an all-interfaces TCP port, and the
    /// bootstrap list is comma-separated with empty entries ignored.
    pub fn new(listen_addr: &Option<String>, bootstrap_peers: &Option<String>) -> (r: P2PConfig)
        ensures
            r.listen_address@ == match listen_addr {
                Some(text) => text@,
                None => "/ip4/0.0.0.0/tcp/61234"@,
            },
            r.bootstrap_peers@.map_values(|p: String| p@) == split_nonempty(
                match bootstrap_peers {
                    Some(text) => text@,
                    None => Seq::<char>::empty(),
                },
            ),
    {
        let listen_address = text_or(listen_addr, "/ip4/0.0.0.0/tcp/61234").to_owned();
        let peers_text = text_or(bootstrap_peers, "");
        proof {
            reveal_strlit("");
            assert(("")@ =~= Seq::<char>::empty());
        }
        let bootstrap = split_peer_list(peers_text);
        P2PConfig { listen_address, bootstrap_peers: bootstrap }
    }
}

/// What the validated port is for a raw optional value: the text, or
/// `3000` when unset, parsed as a number that fits a port.
pub open spec fn spec_port(value: Option<Seq<char>>) -> Option<u16> {
    let text = match value {
        Some(t) => t,
        None => "3000"@,
    };
    match parse_u64_spec(text) {
        Some(n) => if n <= 0xffff {
            Some(n as u16)
        } else {
            None
        },
        None => None,
    }
}

/// What the validated starting block is for a raw optional value: the
/// text, or `0` when unset, parsed as a number.
pub open spec fn spec_starting_block(value: Option<Seq<char>>) -> Option<u64> {
    let text = match value {
        Some(t) => t,
        None => "0"@,
    };
    parse_u64_spec(text)
}

/// The view of an optional text value.
pub open spec fn opt_view(value: Option<String>) -> Option<Seq<char>> {
    match value {
        Some(t) => Some(t@),
        None => None,
    }
}

impl Config {
    /// Validates the raw environment values. The API credential and
    /// the private key are required and their absence is fatal; the
    /// store URL, contract address, server host and port, starting
    /// block and gossip addresses have stated defaults; a port or
    /// starting block that does not parse is fatal.
    pub fn new(env: &EnvValues) -> (r: Result<Config, ConfigError>)
        ensures
            match r {
                Ok(config) => {
                    &&& env.apibara_api_key matches Some(key) && config.apibara_api_key@ == key@
                    &&& env.private_key matches Some(key) && config.private_key@ == key@
                    &&& config.redis_url@ == match env.redis_url {
                        Some(text) => text@,
                        None => "redis://127.0.0.1:6379"@,
                    }
                    &&& config.contract_address@ == match env.contract_address {
                        Some(text) => text@,
                        None => "0x36031daa264c24520b11d93af622c848b2499b66b41d611bac95e13cfca131a"@,
                    }
                    &&& config.server_host@ == match env.server_host {
                        Some(text) => text@,
                        None => "0.0.0.0"@,
                    }
                    &&& Some(config.server_port) == spec_port(opt_view(env.server_port))
                    &&& Some(config.starting_block) == spec_starting_block(
                        opt_view(env.starting_block),
                    )
                    &&& config.p2p.listen_address@ == match env.p2p_listen_addr {
                        Some(text) => text@,
                        None => "/ip4/0.0.0.0/tcp/61234"@,
                    }
                    &&& config.p2p.bootstrap_peers@.map_values(|p: String| p@) == split_nonempty(
                        match env.p2p_bootstrap_peers {
                            Some(text) => text@,
                            None => Seq::<char>::empty(),
                        },
                    )
                },
                Err(ConfigError::MissingApiKey) => env.apibara_api_key is None,
                Err(ConfigError::MissingPrivateKey) => env.apibara_api_key is Some
                    && env.private_key is None,
                Err(ConfigError::InvalidServerPort) => env.apibara_api_key is Some
                    && env.private_key is Some && spec_port(opt_view(env.server_port)) is None,
                Err(ConfigError::InvalidStartingBlock) => env.apibara_api_key is Some
                    && env.private_key is Some && spec_port(opt_view(env.server_port)) is Some
                    && spec_starting_block(opt_view(env.starting_block)) is None,
            },
    {
        let apibara_api_key = match &env.apibara_api_key {
            Some(key) => key.clone(),
            None => {
                return Err(ConfigError::MissingApiKey);
            },
        };
        let private_key = match &env.private_key {
            Some(key) => key.clone(),
            None => {
                return Err(ConfigError::MissingPrivateKey);
            },
        };
        let port_text = text_or(&env.server_port, "3000");
        let server_port: u16 = match parse_u64(port_text) {
            Some(n) => {
                if n <= 0xffff {
                    n as u16
                } else {
                    return Err(ConfigError::InvalidServerPort);
                }
            },
            None => {
                return Err(ConfigError::InvalidServerPort);
            },
        };
        let block_text = text_or(&env.starting_block, "0");
        let starting_block: u64 = match parse_u64(block_text) {
            Some(n) => n,
            None => {
                return Err(ConfigError::InvalidStartingBlock);
            },
        };
        let redis_url = text_or(&env.redis_url, "redis://127.0.0.1:6379").to_owned();
        let contract_address = text_or(
            &env.contract_address,
            "0x36031daa264c24520b11d93af622c848b2499b66b41d611bac95e13cfca131a",
        ).to_owned();
        let server_host = text_or(&env.server_host, "0.0.0.0").to_owned();
        let p2p = P2PConfig::new(&env.p2p_listen_addr, &env.p2p_bootstrap_peers);
        Ok(
            Config {
                redis_url,
                apibara_api_key,
                contract_address,
                server_host,
                server_port,
                starting_block,
                private_key,
                p2p,
            },
        )
    }
}

} // verus!
