//! The station's configuration and its defaults.

use vstd::prelude::*;
use crate::error::Error;

verus! {

/// Access to the Firebase database.
#[derive(Debug)]
pub struct FirebaseConfig {
    pub url: String,
    pub key: String,
    pub uid: String,
}

impl FirebaseConfig {
    /// The values of a configuration that nothing was set in.
    pub open spec fn is_default(&self) -> bool {
        &&& self.key@ == "-"@
        &&& self.url@ == "-"@
        &&& self.uid@ == "."@
    }
}

impl Default for FirebaseConfig {
    fn default() -> (r: Self)
        ensures
            r.is_default(),
    {
        FirebaseConfig {
            key: String::from_str("-"),
            url: String::from_str("-"),
            uid: String::from_str("."),
        }
    }
}

/// Access to the ThingSpeak channel that the station publishes to.
#[derive(Debug)]
pub struct TingsSpeakConfig {
    pub channel: String,
    pub rkey: String,
    pub wkey: String,
}

impl TingsSpeakConfig {
    /// The station's own ThingSpeak channel and keys.
    pub open spec fn is_default(&self) -> bool {
        &&& self.channel@ == "1114700"@
        &&& self.rkey@ == "XZUIDN95GI2ZOSBX"@
        &&& self.wkey@ == "RQ1HTKE735B65NVI"@
    }
}

impl Default for TingsSpeakConfig {
    fn default() -> (r: Self)
        ensures
            r.is_default(),
    {
        TingsSpeakConfig {
            channel: String::from_str("1114700"),
            rkey: String::from_str("XZUIDN95GI2ZOSBX"),
            wkey: String::from_str("RQ1HTKE735B65NVI"),
        }
    }
}

/// Access to the git repository of the station.
#[derive(Debug)]
pub struct GitConfig {
    pub token: String,
    pub url: String,
}

impl GitConfig {
    /// The values of a configuration that nothing was set in.
    pub open spec fn is_default(&self) -> bool {
        &&& self.token@ == "-"@
        &&& self.url@ == "-"@
    }
}

impl Default for GitConfig {
    fn default() -> (r: Self)
        ensures
            r.is_default(),
    {
        GitConfig { token: String::from_str("-"), url: String::from_str("-") }
    }
}

/// How measurements are aggregated.
#[derive(Debug)]
pub struct StatisticConfig {
    /// Collect interval time in second
    pub interval: u64,
    /// Count of outlier
    pub outlier: u8,
    /// Korelationkoefizent
    pub cv: u8,
}

impl Default for StatisticConfig {
    fn default() -> (r: Self)
        ensures
            r.interval == 30,
            r.outlier == 0,
            r.cv == 2,
    {
        StatisticConfig { interval: 30, outlier: 0, cv: 2 }
    }
}

/// The web server of the station.
#[derive(Debug)]
pub struct ServerConfig {
    pub port: u16,
}

impl Default for ServerConfig {
    fn default() -> (r: Self)
        ensures
            r.port == 8088,
    {
        ServerConfig { port: 8088 }
    }
}

/// The configuration of a station.
#[derive(Debug)]
pub struct Config {
    pub name: String,
    pub interface: String,
    pub thingspeak: TingsSpeakConfig,
    pub statistic: StatisticConfig,
    pub server: ServerConfig,
    pub fb: Option<FirebaseConfig>,
    pub git: Option<GitConfig>,
}

impl Default for Config {
    fn default() -> (r: Self)
        ensures
            r.name@ == "noname"@,
            r.interface@ == "wlp2s0"@,
            r.thingspeak.is_default(),
            r.statistic.interval == 30 && r.statistic.outlier == 0 && r.statistic.cv == 2,
            r.server.port == 8088,
            r.fb matches Some(fb) && fb.is_default(),
            r.git is None,
    {
        Config {
            name: String::from_str("noname"),
            interface: String::from_str("wlp2s0"),
            thingspeak: TingsSpeakConfig::default(),
            statistic: StatisticConfig::default(),
            server: ServerConfig::default(),
            fb: Some(FirebaseConfig::default()),
            git: None,
        }
    }
}

/// The message for a station directory without configuration file `path`.
pub open spec fn missing_config_message(path: Seq<char>) -> Seq<char> {
    "\nA configuration "@ + path + " file is not exists!\nto create new working station run `awm new sation-name`\nrerun last command in `station-name` directory\n"@
}

/// The error for a station directory that holds no configuration file at
/// `path`.
pub fn bad_working_staton_directory_error(path: &str) -> (e: Error)
    ensures
        e matches Error::BadWorkstation(m) && m@ == missing_config_message(path@),
{
    let msg = String::from_str("\nA configuration ").concat(path).concat(
        " file is not exists!\nto create new working station run `awm new sation-name`\nrerun last command in `station-name` directory\n",
    );
    Error::BadWorkstation(msg)
}

} // verus!
