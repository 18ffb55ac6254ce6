//! The settings of the service and their defaults.

use crate::text::{parse_unsigned, parsed_unsigned};
use vstd::prelude::*;
use vstd::string::*;

verus! {

/// What the command line gives.
#[derive(Debug)]
pub struct CLIArguments {
    pub config_path: Option<String>,
}

impl CLIArguments {
    /// The path of the configuration file; empty where none was given.
    pub fn path(&self) -> (path: String)
        ensures
            path@ == match self.config_path {
                Some(p) => p@,
                None => Seq::<char>::empty(),
            },
    {
        match &self.config_path {
            Some(p) => p.clone(),
            None => String::new(),
        }
    }
}

/// The configuration file.
#[derive(Debug)]
pub struct IndexerConfig {
    pub listening_port: u16,
    pub geth_endpoints: Vec<String>,
    /// One start height per endpoint, in the endpoints' order; `-1`
    /// stands for no start height.
    pub indexer_start_heights: Vec<i64>,
}

/// The port that the service listens on where it is told no other.
pub const DEFAULT_PORT: u16 = 9090;

/// The start height that goes with the default endpoint.
pub const DEFAULT_START_HEIGHT: i64 = 438_200;

/// The size of the relational pool where it is told no other.
pub const DEFAULT_POOL_SIZE: u64 = 8;

impl Default for IndexerConfig {
    /// One endpoint, its start height, and the default port.
    fn default() -> (config: IndexerConfig)
        ensures
            config.listening_port == DEFAULT_PORT,
            config.geth_endpoints.len() == 1,
            config.geth_endpoints[0]@ == "http://139.59.46.36:22001"@,
            config.indexer_start_heights@ == seq![DEFAULT_START_HEIGHT],
    {
        let mut geth_endpoints: Vec<String> = Vec::new();
        geth_endpoints.push(String::from_str("http://139.59.46.36:22001"));
        let mut indexer_start_heights: Vec<i64> = Vec::new();
        indexer_start_heights.push(DEFAULT_START_HEIGHT);
        IndexerConfig { listening_port: DEFAULT_PORT, geth_endpoints, indexer_start_heights }
    }
}

/// What reading the configuration file gave.
#[derive(Debug)]
pub enum ConfigRead {
    /// There is no file at the path.
    Unreadable,
    /// The file is not a configuration.
    Malformed,
    Parsed(IndexerConfig),
}

/// The configuration to run with: the file's where it could be read,
/// the default where there is no file or it is malformed.
pub fn load_config(read: ConfigRead) -> (config: IndexerConfig)
    ensures
        read matches ConfigRead::Parsed(c) ==> config == c,
        !(read is Parsed) ==> {
            &&& config.listening_port == DEFAULT_PORT
            &&& config.geth_endpoints.len() == 1
            &&& config.geth_endpoints[0]@ == "http://139.59.46.36:22001"@
            &&& config.indexer_start_heights@ == seq![DEFAULT_START_HEIGHT]
        },
{
    match read {
        ConfigRead::Parsed(c) => c,
        _ => IndexerConfig::default(),
    }
}

/// The port to listen on: the one that the environment names, where it
/// names a port, else the configured one.
pub fn listening_port(named: Option<&str>, configured: u16) -> (port: u16)
    ensures
        port == match named {
            Some(text) => match parsed_unsigned(text@, u16::MAX as u64) {
                Some(p) => p as u16,
                None => configured,
            },
            None => configured,
        },
{
    match named {
        Some(text) => match parse_unsigned(text, 65_535) {
            Some(p) => p as u16,
            None => configured,
        },
        None => configured,
    }
}

/// The size of the relational pool: the one that the environment names,
/// eight where it names none, and `None` where what it names is no size.
pub fn max_pool_size(named: Option<&str>) -> (size: Option<u64>)
    ensures
        size == match named {
            Some(text) => parsed_unsigned(text@, u64::MAX),
            None => Some(DEFAULT_POOL_SIZE),
        },
{
    match named {
        Some(text) => parse_unsigned(text, u64::MAX),
        None => Some(DEFAULT_POOL_SIZE),
    }
}

/// The address of the analytics store: `redis://:<password>@<host>`, or
/// `rediss` over TLS; the password defaults to `redis` and the host to
/// `localhost:6379`.
pub open spec fn store_address(
    hostname: Option<Seq<char>>,
    password: Option<Seq<char>>,
    tls: bool,
) -> Seq<char> {
    (if tls {
        "rediss"@
    } else {
        "redis"@
    }) + "://:"@ + (match password {
        Some(p) => p,
        None => "redis"@,
    }) + "@"@ + (match hostname {
        Some(h) => h,
        None => "localhost:6379"@,
    })
}

/// Builds the address of the analytics store.
pub fn redis_url(hostname: Option<&str>, password: Option<&str>, tls: bool) -> (url: String)
    ensures
        url@ == store_address(
            match hostname {
                Some(h) => Some(h@),
                None => None,
            },
            match password {
                Some(p) => Some(p@),
                None => None,
            },
            tls,
        ),
{
    let mut url = String::from_str(
        if tls {
            "rediss"
        } else {
            "redis"
        },
    );
    url.append("://:");
    url.append(
        match password {
            Some(p) => p,
            None => "redis",
        },
    );
    url.append("@");
    url.append(
        match hostname {
            Some(h) => h,
            None => "localhost:6379",
        },
    );
    url
}

/// How often the migrations of the relational store are tried.
pub const MAX_RETRIES: u32 = 100;

/// What to do after one try of the migrations.
#[derive(Clone, Copy, Debug, PartialEq, Eq, Structural)]
pub enum MigrationStep {
    /// The migrations have run.
    Done,
    /// Pause for a second, then make the try with this number.
    Retry(u32),
    /// Every try has failed.
    GiveUp,
}

/// Decides what follows the try with number `attempt`, counted from one:
/// nothing after a success, the next try after a failure, and an error
/// after the hundredth.
pub fn run_migrations(attempt: u32, succeeded: bool) -> (step: MigrationStep)
    requires
        1 <= attempt <= MAX_RETRIES,
    ensures
        step == if succeeded {
            MigrationStep::Done
        } else if attempt < MAX_RETRIES {
            MigrationStep::Retry((attempt + 1) as u32)
        } else {
            MigrationStep::GiveUp
        },
{
    if succeeded {
        MigrationStep::Done
    } else if attempt < MAX_RETRIES {
        MigrationStep::Retry(attempt + 1)
    } else {
        MigrationStep::GiveUp
    }
}

} // verus!
