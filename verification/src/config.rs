//! Application configuration, built from settings that the caller has read.

use vstd::prelude::*;
use vstd::string::StringExecFns;
use crate::fixed::{MAX_LENGTH, SCALE};
use crate::optimizer::config::PackingConfig;
use crate::text::{from_chars, lowered, spells, to_chars, trim_range, trimmed};

verus! {

/// The value of a setting as text: trimmed, and none when it is missing or blank.
pub open spec fn setting_text(raw: Option<Seq<char>>) -> Option<Seq<char>> {
    match raw {
        Some(s) => if trimmed(s).len() == 0 {
            None
        } else {
            Some(trimmed(s))
        },
        None => None,
    }
}

/// The view of an optional string slice.
pub open spec fn optional_text(raw: Option<&str>) -> Option<Seq<char>> {
    match raw {
        Some(s) => Some(s@),
        None => None,
    }
}

/// The view of an optional string.
pub open spec fn optional_string_text(raw: Option<String>) -> Option<Seq<char>> {
    match raw {
        Some(s) => Some(s@),
        None => None,
    }
}

/// The value of a setting: trimmed, and none when it is missing or blank.
pub fn setting_value(raw: Option<&str>) -> (r: Option<String>)
    ensures
        optional_string_text(r) == setting_text(optional_text(raw)),
{
    match raw {
        None => None,
        Some(s) => {
            let chars = to_chars(s);
            let range = trim_range(&chars, 0, chars.len());
            assert(chars@.subrange(0, chars@.len() as int) =~= chars@);
            if range.0 == range.1 {
                None
            } else {
                Some(from_chars(&chars, range.0, range.1))
            }
        },
    }
}

/// The truth value that a text spells, without regard to case and surrounding white
/// space: `1`, `true`, `yes`, `y`, `on` for true; `0`, `false`, `no`, `n`, `off` for
/// false; none for anything else.
pub open spec fn bool_of_text(raw: Seq<char>) -> Option<bool> {
    let t = lowered(trimmed(raw));
    if t == "1"@ || t == "true"@ || t == "yes"@ || t == "y"@ || t == "on"@ {
        Some(true)
    } else if t == "0"@ || t == "false"@ || t == "no"@ || t == "n"@ || t == "off"@ {
        Some(false)
    } else {
        None
    }
}

/// Reads a truth value. `var_name` names the setting that the text came from.
pub fn parse_bool(raw: &str, var_name: &str) -> (r: Option<bool>)
    ensures
        r == bool_of_text(raw@),
{
    let chars = to_chars(raw);
    let (a, b) = trim_range(&chars, 0, chars.len());
    assert(chars@.subrange(0, chars@.len() as int) =~= chars@);
    if spells(&chars, a, b, "1") || spells(&chars, a, b, "true") || spells(&chars, a, b, "yes")
        || spells(&chars, a, b, "y") || spells(&chars, a, b, "on") {
        Some(true)
    } else if spells(&chars, a, b, "0") || spells(&chars, a, b, "false") || spells(
        &chars,
        a,
        b,
        "no",
    ) || spells(&chars, a, b, "n") || spells(&chars, a, b, "off") {
        Some(false)
    } else {
        None
    }
}

/// The address to which the server binds.
#[derive(Clone, Copy, Debug)]
pub enum BindAddress {
    V4([u8; 4]),
    V6([u16; 8]),
}

impl BindAddress {
    /// The address stands for all interfaces: every part is zero.
    pub open spec fn unspecified(&self) -> bool {
        match self {
            BindAddress::V4(parts) => forall|i: int| 0 <= i < 4 ==> parts@[i] == 0,
            BindAddress::V6(parts) => forall|i: int| 0 <= i < 8 ==> parts@[i] == 0,
        }
    }

    /// Whether the address stands for all interfaces.
    pub fn is_unspecified(&self) -> (r: bool)
        ensures
            r == self.unspecified(),
    {
        match self {
            BindAddress::V4(parts) => {
                parts[0] == 0 && parts[1] == 0 && parts[2] == 0 && parts[3] == 0
            },
            BindAddress::V6(parts) => {
                parts[0] == 0 && parts[1] == 0 && parts[2] == 0 && parts[3] == 0 && parts[4]
                    == 0 && parts[5] == 0 && parts[6] == 0 && parts[7] == 0
            },
        }
    }
}

/// The port that the server listens on when none is configured.
pub const DEFAULT_PORT: u16 = 8080;

/// Configuration of the server.
#[derive(Debug)]
pub struct ApiConfig {
    pub bind_ip: BindAddress,
    pub display_host: String,
    pub port: u16,
}

/// A configured host: its text and the address that the text stands for.
pub struct HostSetting {
    pub text: String,
    pub address: BindAddress,
}

impl ApiConfig {
    /// The host that is shown when none is configured.
    pub open spec fn default_host() -> Seq<char> {
        "0.0.0.0"@
    }

    /// The port that a setting gives: the configured port if there is one and it is not
    /// zero, else the default port.
    pub open spec fn chosen_port(port: Option<u16>) -> u16 {
        match port {
            Some(p) => if p != 0 {
                p
            } else {
                DEFAULT_PORT
            },
            None => DEFAULT_PORT,
        }
    }

    /// Builds the configuration from the settings as they were read from the
    /// environment. `host` is the configured host, if one is configured and stands for
    /// an address; `port` the configured port, if one is configured and is a number.
    /// Without a host the server binds to all interfaces.
    pub fn from_env(host: Option<HostSetting>, port: Option<u16>) -> (c: Self)
        ensures
            c.port == Self::chosen_port(port),
            host matches Some(h) ==> c.display_host@ == h.text@ && c.bind_ip == h.address,
            host is None ==> c.display_host@ == Self::default_host() && c.bind_ip
                == BindAddress::V4([0u8, 0u8, 0u8, 0u8]),
    {
        let chosen: u16 = match port {
            Some(p) => if p != 0 {
                p
            } else {
                DEFAULT_PORT
            },
            None => DEFAULT_PORT,
        };
        match host {
            Some(h) => Self { bind_ip: h.address, display_host: h.text, port: chosen },
            None => Self {
                bind_ip: BindAddress::V4([0u8, 0u8, 0u8, 0u8]),
                display_host: String::from_str("0.0.0.0"),
                port: chosen,
            },
        }
    }

    /// The host name for messages.
    pub fn display_host(&self) -> (r: &str)
        ensures
            r@ == self.display_host@,
    {
        self.display_host.as_str()
    }

    /// The configured port.
    pub fn port(&self) -> (r: u16)
        ensures
            r == self.port,
    {
        self.port
    }

    /// Whether the server binds to all interfaces.
    pub fn binds_to_all_interfaces(&self) -> (r: bool)
        ensures
            r == self.bind_ip.unspecified(),
    {
        self.bind_ip.is_unspecified()
    }

    /// Whether the host name is the default.
    pub fn uses_default_host(&self) -> (r: bool)
        ensures
            r == (self.display_host@ == Self::default_host()),
    {
        let default = String::from_str("0.0.0.0");
        self.display_host == default
    }
}

impl Clone for ApiConfig {
    fn clone(&self) -> (c: Self)
        ensures
            c == *self,
    {
        Self { bind_ip: self.bind_ip, display_host: self.display_host.clone(), port: self.port }
    }
}

/// Configuration of the updater: the owner and the name of the repository from which
/// releases come.
#[derive(Debug)]
pub struct UpdateConfig {
    pub owner: String,
    pub repo: String,
}

impl UpdateConfig {
    /// The owner when none is configured.
    pub open spec fn default_owner() -> Seq<char> {
        "JosunLP"@
    }

    /// The repository when none is configured.
    pub open spec fn default_repo() -> Seq<char> {
        "sort-it-now"@
    }

    /// The address at which the latest release of a repository is asked for.
    pub open spec fn endpoint_text(owner: Seq<char>, repo: Seq<char>) -> Seq<char> {
        "https://api.github.com/repos/"@ + owner + "/"@ + repo + "/releases/latest"@
    }

    /// Builds the configuration from the two settings as they were read from the
    /// environment; a missing or blank setting gives the default.
    pub fn from_env(owner: Option<&str>, repo: Option<&str>) -> (c: Self)
        ensures
            c.owner@ == (match setting_text(optional_text(owner)) {
                Some(t) => t,
                None => Self::default_owner(),
            }),
            c.repo@ == (match setting_text(optional_text(repo)) {
                Some(t) => t,
                None => Self::default_repo(),
            }),
    {
        let owner_value = match setting_value(owner) {
            Some(t) => t,
            None => String::from_str("JosunLP"),
        };
        let repo_value = match setting_value(repo) {
            Some(t) => t,
            None => String::from_str("sort-it-now"),
        };
        Self { owner: owner_value, repo: repo_value }
    }

    /// The owner of the repository.
    pub fn owner(&self) -> (r: &str)
        ensures
            r@ == self.owner@,
    {
        self.owner.as_str()
    }

    /// The name of the repository.
    pub fn repo(&self) -> (r: &str)
        ensures
            r@ == self.repo@,
    {
        self.repo.as_str()
    }

    /// The address at which the latest release is asked for.
    pub fn latest_release_endpoint(&self) -> (r: String)
        ensures
            r@ == Self::endpoint_text(self.owner@, self.repo@),
    {
        let mut url = String::from_str("https://api.github.com/repos/");
        url.append(self.owner());
        url.append("/");
        url.append(self.repo());
        url.append("/releases/latest");
        url
    }
}

impl Clone for UpdateConfig {
    fn clone(&self) -> (c: Self)
        ensures
            c == *self,
    {
        Self { owner: self.owner.clone(), repo: self.repo.clone() }
    }
}

/// The packing options as they were read: each is none when it is not configured or
/// is not a number.
#[derive(Clone, Copy, Debug)]
pub struct OptimizerSettings {
    pub grid_step: Option<i64>,
    pub support_ratio: Option<i64>,
    pub height_epsilon: Option<i64>,
    pub general_epsilon: Option<i64>,
    pub balance_limit_ratio: Option<i64>,
    pub footprint_cluster_tolerance: Option<i64>,
    pub allow_item_rotation: Option<bool>,
}

/// The value of a numeric option: the configured value when it lies in the range of
/// the option, else the default.
pub open spec fn chosen_value(value: Option<i64>, lo: int, hi: int, default: i64) -> i64 {
    match value {
        Some(v) => if lo <= v <= hi {
            v
        } else {
            default
        },
        None => default,
    }
}

/// The value of a numeric option.
pub fn choose_value(value: Option<i64>, lo: i64, hi: i64, default: i64) -> (r: i64)
    ensures
        r == chosen_value(value, lo as int, hi as int, default),
{
    match value {
        Some(v) => if lo <= v && v <= hi {
            v
        } else {
            default
        },
        None => default,
    }
}

/// Configuration of the placement engine as part of the application configuration.
#[derive(Clone, Copy, Debug)]
pub struct OptimizerConfig {
    pub packing: PackingConfig,
}

impl OptimizerConfig {
    /// The packing configuration that the settings give: each option is the configured
    /// value when that lies in the range of the option, else the default.
    pub open spec fn packing_of(settings: OptimizerSettings) -> PackingConfig {
        PackingConfig {
            grid_step: chosen_value(settings.grid_step, 1, MAX_LENGTH as int, PackingConfig::DEFAULT_GRID_STEP),
            support_ratio: chosen_value(
                settings.support_ratio,
                0,
                SCALE as int,
                PackingConfig::DEFAULT_SUPPORT_RATIO,
            ),
            height_epsilon: chosen_value(
                settings.height_epsilon,
                1,
                MAX_LENGTH as int,
                PackingConfig::DEFAULT_HEIGHT_EPSILON,
            ),
            general_epsilon: chosen_value(
                settings.general_epsilon,
                1,
                MAX_LENGTH as int,
                PackingConfig::DEFAULT_GENERAL_EPSILON,
            ),
            balance_limit_ratio: chosen_value(
                settings.balance_limit_ratio,
                0,
                SCALE as int,
                PackingConfig::DEFAULT_BALANCE_LIMIT_RATIO,
            ),
            footprint_cluster_tolerance: chosen_value(
                settings.footprint_cluster_tolerance,
                0,
                SCALE as int / 2,
                PackingConfig::DEFAULT_FOOTPRINT_CLUSTER_TOLERANCE,
            ),
            allow_item_rotation: match settings.allow_item_rotation {
                Some(allow) => allow,
                None => PackingConfig::DEFAULT_ALLOW_ITEM_ROTATION,
            },
        }
    }

    /// Builds the configuration from the options as they were read from the
    /// environment.
    pub fn from_env(settings: &OptimizerSettings) -> (c: Self)
        ensures
            c.packing == Self::packing_of(*settings),
            c.packing.valid(),
    {
        let packing = PackingConfig {
            grid_step: choose_value(settings.grid_step, 1, MAX_LENGTH, PackingConfig::DEFAULT_GRID_STEP),
            support_ratio: choose_value(settings.support_ratio, 0, SCALE, PackingConfig::DEFAULT_SUPPORT_RATIO),
            height_epsilon: choose_value(
                settings.height_epsilon,
                1,
                MAX_LENGTH,
                PackingConfig::DEFAULT_HEIGHT_EPSILON,
            ),
            general_epsilon: choose_value(
                settings.general_epsilon,
                1,
                MAX_LENGTH,
                PackingConfig::DEFAULT_GENERAL_EPSILON,
            ),
            balance_limit_ratio: choose_value(
                settings.balance_limit_ratio,
                0,
                SCALE,
                PackingConfig::DEFAULT_BALANCE_LIMIT_RATIO,
            ),
            footprint_cluster_tolerance: choose_value(
                settings.footprint_cluster_tolerance,
                0,
                SCALE / 2,
                PackingConfig::DEFAULT_FOOTPRINT_CLUSTER_TOLERANCE,
            ),
            allow_item_rotation: match settings.allow_item_rotation {
                Some(allow) => allow,
                None => PackingConfig::DEFAULT_ALLOW_ITEM_ROTATION,
            },
        };
        Self { packing }
    }

    /// The packing configuration.
    pub fn packing_config(&self) -> (r: PackingConfig)
        ensures
            r == self.packing,
    {
        self.packing
    }
}

/// The whole application configuration.
#[derive(Debug)]
pub struct AppConfig {
    pub api: ApiConfig,
    pub update: UpdateConfig,
    pub optimizer: OptimizerConfig,
}

impl AppConfig {
    /// Builds the whole configuration from the settings as they were read from the
    /// environment: the host and port of the server, the owner and repository of the
    /// releases, and the packing options.
    pub fn from_env(
        host: Option<HostSetting>,
        port: Option<u16>,
        owner: Option<&str>,
        repo: Option<&str>,
        optimizer: &OptimizerSettings,
    ) -> (c: Self)
        ensures
            c.api.port == ApiConfig::chosen_port(port),
            host matches Some(h) ==> c.api.display_host@ == h.text@ && c.api.bind_ip == h.address,
            host is None ==> c.api.display_host@ == ApiConfig::default_host() && c.api.bind_ip
                == BindAddress::V4([0u8, 0u8, 0u8, 0u8]),
            c.update.owner@ == (match setting_text(optional_text(owner)) {
                Some(t) => t,
                None => UpdateConfig::default_owner(),
            }),
            c.update.repo@ == (match setting_text(optional_text(repo)) {
                Some(t) => t,
                None => UpdateConfig::default_repo(),
            }),
            c.optimizer.packing == OptimizerConfig::packing_of(*optimizer),
            c.optimizer.packing.valid(),
    {
        Self {
            api: ApiConfig::from_env(host, port),
            update: UpdateConfig::from_env(owner, repo),
            optimizer: OptimizerConfig::from_env(optimizer),
        }
    }
}

impl Clone for AppConfig {
    fn clone(&self) -> (c: Self)
        ensures
            c == *self,
    {
        Self { api: self.api.clone(), update: self.update.clone(), optimizer: self.optimizer }
    }
}

} // verus!
