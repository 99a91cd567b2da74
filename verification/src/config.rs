//! The configuration: what a file says, overlaid with what the environment
//! says.

use vstd::prelude::*;
use vstd::string::StringExecFns;
use crate::event::opt_text;

verus! {

/// How much the program logs about itself.
#[derive(Debug, Clone, PartialEq, Eq)]
pub struct LoggingConfig {
    /// `error`, `warn`, `info`, `debug` or `trace`.
    pub level: String,
}

/// Where a Cosmos container is, and how to reach it.
#[derive(Debug, Clone, PartialEq, Eq)]
pub struct CosmosConfig {
    pub account: Option<String>,
    pub database: Option<String>,
    pub container: Option<String>,
    pub connection_string: Option<String>,
}

/// The cloud services.
#[derive(Debug, Clone, PartialEq, Eq)]
pub struct AzureConfig {
    pub cosmos: Option<CosmosConfig>,
}

/// The whole configuration.
#[derive(Debug, Clone, PartialEq, Eq)]
pub struct Config {
    pub logging: LoggingConfig,
    pub azure: Option<AzureConfig>,
}

/// What the environment says: each field is the value of one variable, if
/// it is set.
#[derive(Debug, Clone, PartialEq, Eq)]
pub struct EnvOverlay {
    /// `RECLI_LOG_LEVEL`
    pub log_level: Option<String>,
    /// `RECLI_AZURE__COSMOS__ACCOUNT`
    pub cosmos_account: Option<String>,
    /// `RECLI_AZURE__COSMOS__DB`
    pub cosmos_database: Option<String>,
    /// `RECLI_AZURE__COSMOS__CONTAINER`
    pub cosmos_container: Option<String>,
    /// `RECLI_AZURE__COSMOS__CONNSTR`
    pub cosmos_connection_string: Option<String>,
}

/// The mathematical value of a `CosmosConfig`.
pub struct CosmosConfigView {
    pub account: Option<Seq<char>>,
    pub database: Option<Seq<char>>,
    pub container: Option<Seq<char>>,
    pub connection_string: Option<Seq<char>>,
}

impl View for CosmosConfig {
    type V = CosmosConfigView;

    open spec fn view(&self) -> CosmosConfigView {
        CosmosConfigView {
            account: opt_text(self.account),
            database: opt_text(self.database),
            container: opt_text(self.container),
            connection_string: opt_text(self.connection_string),
        }
    }
}

/// The Cosmos settings of a configuration; all unset where it has none.
pub open spec fn cosmos_of(azure: Option<AzureConfig>) -> CosmosConfigView {
    match azure {
        Some(AzureConfig { cosmos: Some(c) }) => c@,
        _ => CosmosConfigView {
            account: None,
            database: None,
            container: None,
            connection_string: None,
        },
    }
}

/// `over` where it is set, else `under`.
pub open spec fn overlaid(under: Option<Seq<char>>, over: Option<Seq<char>>) -> Option<
    Seq<char>,
> {
    match over {
        Some(v) => Some(v),
        None => under,
    }
}

/// The level that is logged at when nothing sets one.
pub open spec fn default_level() -> Seq<char> {
    "info"@
}

/// The level of a configuration that may be missing.
pub open spec fn level_of(file: Option<Config>) -> Seq<char> {
    match file {
        Some(c) => c.logging.level@,
        None => default_level(),
    }
}

/// The Cosmos settings of a configuration that may be missing.
pub open spec fn file_cosmos(file: Option<Config>) -> CosmosConfigView {
    match file {
        Some(c) => cosmos_of(c.azure),
        None => cosmos_of(None),
    }
}

impl Default for LoggingConfig {
    fn default() -> (c: LoggingConfig)
        ensures
            c.level@ == default_level(),
    {
        LoggingConfig { level: String::from_str("info") }
    }
}

impl Default for CosmosConfig {
    fn default() -> (c: CosmosConfig)
        ensures
            c@ == cosmos_of(None),
    {
        CosmosConfig { account: None, database: None, container: None, connection_string: None }
    }
}

impl Default for AzureConfig {
    fn default() -> (c: AzureConfig)
        ensures
            c.cosmos is None,
    {
        AzureConfig { cosmos: None }
    }
}

impl Default for Config {
    fn default() -> (c: Config)
        ensures
            c.logging.level@ == default_level(),
            c.azure is None,
    {
        Config { logging: LoggingConfig { level: String::from_str("info") }, azure: None }
    }
}

/// `over` where it is set, else `under`.
fn overlay(under: Option<String>, over: Option<String>) -> (r: Option<String>)
    ensures
        opt_text(r) == overlaid(opt_text(under), opt_text(over)),
{
    match over {
        Some(v) => Some(v),
        None => under,
    }
}

impl Config {
    /// The configuration in effect. `file` is what the configuration file
    /// holds, if there is one that can be read; where there is none, the
    /// defaults stand in. Every variable that the environment sets wins over
    /// the file. The result always has its Cosmos settings in place, even
    /// if none of them is set.
    pub fn load(file: Option<Config>, env: EnvOverlay) -> (cfg: Config)
        ensures
            cfg.logging.level@ == (match opt_text(env.log_level) {
                Some(level) => level,
                None => level_of(file),
            }),
            cfg.azure matches Some(AzureConfig { cosmos: Some(_) }),
            cosmos_of(cfg.azure) == (CosmosConfigView {
                account: overlaid(file_cosmos(file).account, opt_text(env.cosmos_account)),
                database: overlaid(file_cosmos(file).database, opt_text(env.cosmos_database)),
                container: overlaid(file_cosmos(file).container, opt_text(env.cosmos_container)),
                connection_string: overlaid(
                    file_cosmos(file).connection_string,
                    opt_text(env.cosmos_connection_string),
                ),
            }),
    {
        let base: Config = match file {
            Some(c) => c,
            None => Config { logging: LoggingConfig { level: String::from_str("info") }, azure: None },
        };
        let Config { logging, azure } = base;
        let level: String = match env.log_level {
            Some(level) => level,
            None => logging.level,
        };
        let cosmos: CosmosConfig = match azure {
            Some(AzureConfig { cosmos: Some(c) }) => c,
            _ => CosmosConfig {
                account: None,
                database: None,
                container: None,
                connection_string: None,
            },
        };
        let merged = CosmosConfig {
            account: overlay(cosmos.account, env.cosmos_account),
            database: overlay(cosmos.database, env.cosmos_database),
            container: overlay(cosmos.container, env.cosmos_container),
            connection_string: overlay(cosmos.connection_string, env.cosmos_connection_string),
        };
        Config {
            logging: LoggingConfig { level },
            azure: Some(AzureConfig { cosmos: Some(merged) }),
        }
    }
}

} // verus!
