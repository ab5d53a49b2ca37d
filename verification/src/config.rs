//! Configuration model and accessors.
//!
//! The runtime parses the configuration file and hands the result over as
//! these plain structures; every accessor's defaulting rule is stated and
//! proved here.  A deployment runs in one of two roles: a `collector` scans
//! locales, dispatches notifications and serves the ingest endpoint, while
//! an `agent` fetches a single locale and forwards the raw batch to a
//! collector.

use vstd::prelude::*;

use crate::errors::{AppError, ConfigError};
use crate::keys::str_eq;

verus! {

#[derive(Debug, PartialEq, Eq)]
pub struct WebhookEntry {
    pub name: Option<String>,
    pub url: String,
}

#[derive(Debug, PartialEq, Eq)]
pub struct DiscordConfig {
    pub token: String,
    pub locale_mode: Option<String>,
    pub super_properties: String,
    pub webhooks: Option<Vec<WebhookEntry>>,
}

#[derive(Debug, PartialEq, Eq)]
pub struct NotifierConfig {
    pub reward_filter: Option<String>,
    pub fetch_interval_minutes: Option<u64>,
    pub run_once: Option<bool>,
    pub storage_type: Option<String>,
    pub storage_path: Option<String>,
    pub initial_send_all: Option<bool>,
}

#[derive(Debug, PartialEq, Eq)]
pub struct ModeConfig {
    /// `"collector"` or `"agent"`.
    pub role: Option<String>,
    /// Where an agent forwards its batches.
    pub collector_url: Option<String>,
    /// The bearer secret an agent presents.
    pub collector_token: Option<String>,
    /// The bearer secret a collector demands, if any.
    pub accept_token: Option<String>,
    /// The port the collector's ingest endpoint listens on.
    pub ingest_port: Option<u16>,
}

#[derive(Debug, PartialEq, Eq)]
pub struct RegionConfig {
    /// A market code such as `"en-US"`.
    pub code: Option<String>,
}

#[derive(Debug, PartialEq, Eq)]
pub struct Config {
    pub discord: DiscordConfig,
    pub notifier: NotifierConfig,
    pub mode: Option<ModeConfig>,
    pub region: Option<RegionConfig>,
}

impl Default for NotifierConfig {
    fn default() -> (d: Self)
        ensures
            d.reward_filter matches Some(f) && f@ == "all"@,
            d.fetch_interval_minutes == Some(30u64),
            d.run_once == Some(false),
            d.storage_type matches Some(t) && t@ == "json"@,
            d.storage_path matches Some(p) && p@ == "./known-quests.json"@,
            d.initial_send_all == Some(false),
    {
        NotifierConfig {
            reward_filter: Some(String::from_str("all")),
            fetch_interval_minutes: Some(30),
            run_once: Some(false),
            storage_type: Some(String::from_str("json")),
            storage_path: Some(String::from_str("./known-quests.json")),
            initial_send_all: Some(false),
        }
    }
}

pub open spec fn spec_reward_filter(c: Config) -> Seq<char> {
    match c.notifier.reward_filter {
        Some(f) => f@,
        None => "all"@,
    }
}

pub open spec fn spec_locale_mode(c: Config) -> Seq<char> {
    match c.discord.locale_mode {
        Some(m) => m@,
        None => "single"@,
    }
}

pub open spec fn spec_role(c: Config) -> Seq<char> {
    match c.mode {
        Some(m) => match m.role {
            Some(r) => r@,
            None => "collector"@,
        },
        None => "collector"@,
    }
}

pub open spec fn spec_collector_url(c: Config) -> Option<Seq<char>> {
    match c.mode {
        Some(m) => match m.collector_url {
            Some(u) => Some(u@),
            None => None,
        },
        None => None,
    }
}

pub open spec fn spec_collector_token(c: Config) -> Option<Seq<char>> {
    match c.mode {
        Some(m) => match m.collector_token {
            Some(t) => Some(t@),
            None => None,
        },
        None => None,
    }
}

pub open spec fn spec_accept_token(c: Config) -> Option<Seq<char>> {
    match c.mode {
        Some(m) => match m.accept_token {
            Some(t) => Some(t@),
            None => None,
        },
        None => None,
    }
}

pub open spec fn spec_region_code(c: Config) -> Seq<char> {
    match c.region {
        Some(r) => match r.code {
            Some(code) => code@,
            None => spec_locale_mode(c),
        },
        None => spec_locale_mode(c),
    }
}

pub open spec fn spec_super_properties(c: Config) -> Seq<char> {
    if c.discord.super_properties@ == ""@ || c.discord.super_properties@
        == "your_base64_super_properties"@ {
        "e30="@
    } else {
        c.discord.super_properties@
    }
}

impl Config {
    /// The configured reward filter, `"all"` when absent.
    pub fn reward_filter(&self) -> (r: &str)
        ensures
            r@ == spec_reward_filter(*self),
    {
        match &self.notifier.reward_filter {
            Some(f) => f.as_str(),
            None => "all",
        }
    }

    /// Minutes between scan cycles, 30 when absent.
    pub fn fetch_interval(&self) -> (r: u64)
        ensures
            r == match self.notifier.fetch_interval_minutes {
                Some(m) => m,
                None => 30u64,
            },
    {
        match self.notifier.fetch_interval_minutes {
            Some(m) => m,
            None => 30,
        }
    }

    /// Whether the driver exits after one cycle, false when absent.
    pub fn run_once(&self) -> (r: bool)
        ensures
            r == match self.notifier.run_once {
                Some(b) => b,
                None => false,
            },
    {
        match self.notifier.run_once {
            Some(b) => b,
            None => false,
        }
    }

    /// The client-properties blob presented upstream; a placeholder or empty
    /// value falls back to the built-in default.
    pub fn super_properties(&self) -> (r: &str)
        ensures
            r@ == spec_super_properties(*self),
    {
        if str_eq(self.discord.super_properties.as_str(), "") || str_eq(
            self.discord.super_properties.as_str(),
            "your_base64_super_properties",
        ) {
            "e30="
        } else {
            self.discord.super_properties.as_str()
        }
    }

    /// The storage backend identifier, `"json"` when absent.
    pub fn storage_type(&self) -> (r: &str)
        ensures
            r@ == match self.notifier.storage_type {
                Some(t) => t@,
                None => "json"@,
            },
    {
        match &self.notifier.storage_type {
            Some(t) => t.as_str(),
            None => "json",
        }
    }

    /// The storage path, `"./known-quests.json"` when absent.
    pub fn storage_path(&self) -> (r: &str)
        ensures
            r@ == match self.notifier.storage_path {
                Some(p) => p@,
                None => "./known-quests.json"@,
            },
    {
        match &self.notifier.storage_path {
            Some(p) => p.as_str(),
            None => "./known-quests.json",
        }
    }

    /// The locale mode, `"single"` when absent.
    pub fn locale_mode(&self) -> (r: &str)
        ensures
            r@ == spec_locale_mode(*self),
    {
        match &self.discord.locale_mode {
            Some(m) => m.as_str(),
            None => "single",
        }
    }

    /// Whether a first run on an empty store notifies anyway, false when
    /// absent.
    pub fn initial_send_all(&self) -> (r: bool)
        ensures
            r == match self.notifier.initial_send_all {
                Some(b) => b,
                None => false,
            },
    {
        match self.notifier.initial_send_all {
            Some(b) => b,
            None => false,
        }
    }

    /// The configured role, `"collector"` when absent.
    pub fn role(&self) -> (r: &str)
        ensures
            r@ == spec_role(*self),
    {
        match &self.mode {
            Some(m) => match &m.role {
                Some(r) => r.as_str(),
                None => "collector",
            },
            None => "collector",
        }
    }

    /// Whether this deployment runs as the collector.
    pub fn is_collector(&self) -> (r: bool)
        ensures
            r == (spec_role(*self) == "collector"@),
    {
        str_eq(self.role(), "collector")
    }

    /// Whether this deployment runs as an agent.
    pub fn is_agent(&self) -> (r: bool)
        ensures
            r == (spec_role(*self) == "agent"@),
    {
        str_eq(self.role(), "agent")
    }

    /// Where an agent forwards its batches, if configured.
    pub fn collector_url(&self) -> (r: Option<&str>)
        ensures
            r.deep_view() == spec_collector_url(*self),
    {
        match &self.mode {
            Some(m) => match &m.collector_url {
                Some(u) => Some(u.as_str()),
                None => None,
            },
            None => None,
        }
    }

    /// The bearer secret an agent presents, if configured.
    pub fn collector_token(&self) -> (r: Option<&str>)
        ensures
            r.deep_view() == spec_collector_token(*self),
    {
        match &self.mode {
            Some(m) => match &m.collector_token {
                Some(t) => Some(t.as_str()),
                None => None,
            },
            None => None,
        }
    }

    /// The bearer secret the collector demands of ingest requests, if any.
    pub fn accept_token(&self) -> (r: Option<&str>)
        ensures
            r.deep_view() == spec_accept_token(*self),
    {
        match &self.mode {
            Some(m) => match &m.accept_token {
                Some(t) => Some(t.as_str()),
                None => None,
            },
            None => None,
        }
    }

    /// The region this deployment scans or forwards, falling back to the
    /// locale mode value.
    pub fn region_code(&self) -> (r: &str)
        ensures
            r@ == spec_region_code(*self),
    {
        match &self.region {
            Some(reg) => match &reg.code {
                Some(code) => code.as_str(),
                None => self.locale_mode(),
            },
            None => self.locale_mode(),
        }
    }

    /// The ingest endpoint's port, 8080 when absent.
    pub fn ingest_port(&self) -> (r: u16)
        ensures
            r == match self.mode {
                Some(m) => match m.ingest_port {
                    Some(p) => p,
                    None => 8080u16,
                },
                None => 8080u16,
            },
    {
        match &self.mode {
            Some(m) => match m.ingest_port {
                Some(p) => p,
                None => 8080,
            },
            None => 8080,
        }
    }

    /// Rejects a missing or placeholder upstream credential.  Accepts every
    /// other configuration.
    pub fn validate(&self) -> (r: Result<(), ConfigError>)
        ensures
            r is Ok <==> !(self.discord.token@ == ""@ || self.discord.token@
                == "your_discord_user_token"@),
            r matches Err(e) ==> e matches ConfigError::InvalidToken(d) && d@
                == "Discord token is missing or not configured"@,
    {
        if str_eq(self.discord.token.as_str(), "") || str_eq(
            self.discord.token.as_str(),
            "your_discord_user_token",
        ) {
            Err(
                ConfigError::InvalidToken(
                    String::from_str("Discord token is missing or not configured"),
                ),
            )
        } else {
            Ok(())
        }
    }

    /// The collector endpoint and secret an agent must forward to, or the
    /// error naming whichever of the two is missing.
    pub fn agent_endpoint(&self) -> (r: Result<(String, String), AppError>)
        ensures
            r is Ok <==> (spec_collector_url(*self) is Some && spec_collector_token(*self)
                is Some),
            r matches Ok(p) ==> Some(p.0@) == spec_collector_url(*self) && Some(p.1@)
                == spec_collector_token(*self),
            r matches Err(e) ==> e.0@ == (if spec_collector_url(*self) is None {
                "collector_url not configured"@
            } else {
                "collector_token not configured"@
            }),
    {
        match self.collector_url() {
            None => Err(AppError(String::from_str("collector_url not configured"))),
            Some(u) => match self.collector_token() {
                None => Err(AppError(String::from_str("collector_token not configured"))),
                Some(t) => Ok((u.to_owned(), t.to_owned())),
            },
        }
    }
}

/// The views of the locale codes a full cross-locale scan walks, in scan
/// order.
pub open spec fn locales_list() -> Seq<Seq<char>> {
    seq![
        "en-GB"@, "en-US"@, "da-DK"@, "de-DE"@, "nl-NL"@, "no-NO"@, "fi-FI"@, "sv-SE"@,
        "fr-FR"@, "it-IT"@, "es-ES"@, "es-419"@, "pt-BR"@, "hr-HR"@, "hu-HU"@, "lt-LT"@,
        "pl-PL"@, "ro-RO"@, "cs-CZ"@, "tr-TR"@, "el-GR"@, "bg-BG"@, "ru-RU"@, "uk-UA"@,
        "vi-VN"@, "hi-IN"@, "th-TH"@, "zh-CN"@, "zh-TW"@, "ja-JP"@, "ko-KR"@,
    ]
}

/// The locale codes a full cross-locale scan walks, in scan order.
pub fn all_locales() -> (r: Vec<String>)
    ensures
        r.deep_view() == locales_list(),
{
    let mut v: Vec<String> = Vec::new();
    v.push(String::from_str("en-GB"));
    v.push(String::from_str("en-US"));
    v.push(String::from_str("da-DK"));
    v.push(String::from_str("de-DE"));
    v.push(String::from_str("nl-NL"));
    v.push(String::from_str("no-NO"));
    v.push(String::from_str("fi-FI"));
    v.push(String::from_str("sv-SE"));
    v.push(String::from_str("fr-FR"));
    v.push(String::from_str("it-IT"));
    v.push(String::from_str("es-ES"));
    v.push(String::from_str("es-419"));
    v.push(String::from_str("pt-BR"));
    v.push(String::from_str("hr-HR"));
    v.push(String::from_str("hu-HU"));
    v.push(String::from_str("lt-LT"));
    v.push(String::from_str("pl-PL"));
    v.push(String::from_str("ro-RO"));
    v.push(String::from_str("cs-CZ"));
    v.push(String::from_str("tr-TR"));
    v.push(String::from_str("el-GR"));
    v.push(String::from_str("bg-BG"));
    v.push(String::from_str("ru-RU"));
    v.push(String::from_str("uk-UA"));
    v.push(String::from_str("vi-VN"));
    v.push(String::from_str("hi-IN"));
    v.push(String::from_str("th-TH"));
    v.push(String::from_str("zh-CN"));
    v.push(String::from_str("zh-TW"));
    v.push(String::from_str("ja-JP"));
    v.push(String::from_str("ko-KR"));
    proof {
        assert(v.deep_view() =~= locales_list());
    }
    v
}

/// The views of the locales a deployment checks: an agent checks its region
/// alone; a collector in `"all"` mode walks the full locale list, any other
/// mode checks the region alone.
pub open spec fn spec_locales_to_check(c: Config) -> Seq<Seq<char>> {
    if spec_role(c) == "agent"@ {
        seq![spec_region_code(c)]
    } else if spec_locale_mode(c) == "all"@ {
        locales_list()
    } else {
        seq![spec_region_code(c)]
    }
}

/// The locales this deployment checks, in scan order.
pub fn locales_to_check(config: &Config) -> (r: Vec<String>)
    ensures
        r.deep_view() == spec_locales_to_check(*config),
{
    if config.is_agent() {
        let mut v: Vec<String> = Vec::new();
        v.push(config.region_code().to_owned());
        proof {
            assert(v.deep_view() =~= seq![spec_region_code(*config)]);
        }
        v
    } else if str_eq(config.locale_mode(), "all") {
        all_locales()
    } else {
        let mut v: Vec<String> = Vec::new();
        v.push(config.region_code().to_owned());
        proof {
            assert(v.deep_view() =~= seq![spec_region_code(*config)]);
        }
        v
    }
}

} // verus!
