//! The agent's settings: the names they use, the values they take, and
//! where the files are.

use vstd::prelude::*;
use vstd::string::StringExecFns;
use crate::keyvalue::{invalid_message, invalid_text, read_switch, switch_value, Style, ValueKind};
use crate::number::{parse_unsigned, read_unsigned};
pub use crate::runtime_data::{
    lemma_decode_encode,
    lemma_load_written,
    loaded,
    normalize_boot_token,
    LoadModel,
    LoadOutcome,
    RuntimeData,
    RuntimeModel,
};
use crate::text::{
    ascii_lower,
    eq_ignore_ascii_case,
    equals_ignore_ascii_case,
    optional_text,
    to_chars,
};
pub use crate::user_config::{default_terminal_entry, UserConfig, UserConfigModel};

verus! {

// ==================== Enums ====================
/// The service that is asked for the host's public address.
#[derive(Debug, Clone, Copy, PartialEq, Eq, Structural)]
pub enum IpProvider {
    Cloudflare,
    Ipinfo,
}

impl IpProvider {
    /// The provider's name as it is written in the settings.
    pub open spec fn label(self) -> Seq<char> {
        match self {
            IpProvider::Cloudflare => "cloudflare"@,
            IpProvider::Ipinfo => "ipinfo"@,
        }
    }

    /// The provider that `text` names, capitals and small letters counting
    /// as the same.
    pub open spec fn named(text: Seq<char>) -> Option<IpProvider> {
        if eq_ignore_ascii_case(text, "cloudflare"@) {
            Some(IpProvider::Cloudflare)
        } else if eq_ignore_ascii_case(text, "ipinfo"@) {
            Some(IpProvider::Ipinfo)
        } else {
            None
        }
    }

    /// The value that the characters `s` name, if they name one.
    pub fn from_chars(s: &[char]) -> (r: Option<Self>)
        ensures
            r == Self::named(s@),
    {
        if equals_ignore_ascii_case(s, "cloudflare") {
            Some(IpProvider::Cloudflare)
        } else if equals_ignore_ascii_case(s, "ipinfo") {
            Some(IpProvider::Ipinfo)
        } else {
            None
        }
    }

    /// Reads a name, in capitals or small letters; any other text is an
    /// error that quotes it.
    pub fn from_str(s: &str) -> (r: Result<Self, String>)
        ensures
            match r {
                Ok(value) => Self::named(s@) == Some(value),
                Err(message) => Self::named(s@) is None && message@ == "Invalid ip_provider value: "@
                    + s@,
            },
    {
        let chars = to_chars(s);
        match Self::from_chars(chars.as_slice()) {
            Some(value) => Ok(value),
            None => {
                let mut message = String::from_str("Invalid ip_provider value: ");
                message.append(s);
                Err(message)
            },
        }
    }

    /// The name in small letters, as `from_str` reads it.
    pub fn to_string(&self) -> (r: String)
        ensures
            r@ == self.label(),
    {
        match self {
            IpProvider::Cloudflare => String::from_str("cloudflare"),
            IpProvider::Ipinfo => String::from_str("ipinfo"),
        }
    }
}

/// How much the agent writes to its log.
#[derive(Debug, Clone, Copy, PartialEq, Eq, Structural)]
pub enum LogLevel {
    Error,
    Warn,
    Info,
    Debug,
    Trace,
}

impl LogLevel {
    /// The level's name as it is written in the settings.
    pub open spec fn label(self) -> Seq<char> {
        match self {
            LogLevel::Error => "error"@,
            LogLevel::Warn => "warn"@,
            LogLevel::Info => "info"@,
            LogLevel::Debug => "debug"@,
            LogLevel::Trace => "trace"@,
        }
    }

    /// The level that `text` names, capitals and small letters counting as
    /// the same.
    pub open spec fn named(text: Seq<char>) -> Option<LogLevel> {
        if eq_ignore_ascii_case(text, "error"@) {
            Some(LogLevel::Error)
        } else if eq_ignore_ascii_case(text, "warn"@) {
            Some(LogLevel::Warn)
        } else if eq_ignore_ascii_case(text, "info"@) {
            Some(LogLevel::Info)
        } else if eq_ignore_ascii_case(text, "debug"@) {
            Some(LogLevel::Debug)
        } else if eq_ignore_ascii_case(text, "trace"@) {
            Some(LogLevel::Trace)
        } else {
            None
        }
    }

    /// The value that the characters `s` name, if they name one.
    pub fn from_chars(s: &[char]) -> (r: Option<Self>)
        ensures
            r == Self::named(s@),
    {
        if equals_ignore_ascii_case(s, "error") {
            Some(LogLevel::Error)
        } else if equals_ignore_ascii_case(s, "warn") {
            Some(LogLevel::Warn)
        } else if equals_ignore_ascii_case(s, "info") {
            Some(LogLevel::Info)
        } else if equals_ignore_ascii_case(s, "debug") {
            Some(LogLevel::Debug)
        } else if equals_ignore_ascii_case(s, "trace") {
            Some(LogLevel::Trace)
        } else {
            None
        }
    }

    /// Reads a name, in capitals or small letters; any other text is an
    /// error that quotes it.
    pub fn from_str(s: &str) -> (r: Result<Self, String>)
        ensures
            match r {
                Ok(value) => Self::named(s@) == Some(value),
                Err(message) => Self::named(s@) is None && message@ == "Invalid log_level value: "@
                    + s@,
            },
    {
        let chars = to_chars(s);
        match Self::from_chars(chars.as_slice()) {
            Some(value) => Ok(value),
            None => {
                let mut message = String::from_str("Invalid log_level value: ");
                message.append(s);
                Err(message)
            },
        }
    }

    /// The name in small letters, as `from_str` reads it.
    pub fn to_string(&self) -> (r: String)
        ensures
            r@ == self.label(),
    {
        match self {
            LogLevel::Error => String::from_str("error"),
            LogLevel::Warn => String::from_str("warn"),
            LogLevel::Info => String::from_str("info"),
            LogLevel::Debug => String::from_str("debug"),
            LogLevel::Trace => String::from_str("trace"),
        }
    }
}

/// Which directions of traffic are reported.
#[derive(Debug, Clone, Copy, PartialEq, Eq, Structural)]
pub enum TrafficMode {
    Both,
    TxOnly,
    RxOnly,
}

impl TrafficMode {
    /// The mode's name as it is written in the settings.
    pub open spec fn label(self) -> Seq<char> {
        match self {
            TrafficMode::Both => "both"@,
            TrafficMode::TxOnly => "tx_only"@,
            TrafficMode::RxOnly => "rx_only"@,
        }
    }

    /// The mode that `text` names, capitals and small letters counting as
    /// the same.
    pub open spec fn named(text: Seq<char>) -> Option<TrafficMode> {
        if eq_ignore_ascii_case(text, "both"@) {
            Some(TrafficMode::Both)
        } else if eq_ignore_ascii_case(text, "tx_only"@) {
            Some(TrafficMode::TxOnly)
        } else if eq_ignore_ascii_case(text, "rx_only"@) {
            Some(TrafficMode::RxOnly)
        } else {
            None
        }
    }

    /// The value that the characters `s` name, if they name one.
    pub fn from_chars(s: &[char]) -> (r: Option<Self>)
        ensures
            r == Self::named(s@),
    {
        if equals_ignore_ascii_case(s, "both") {
            Some(TrafficMode::Both)
        } else if equals_ignore_ascii_case(s, "tx_only") {
            Some(TrafficMode::TxOnly)
        } else if equals_ignore_ascii_case(s, "rx_only") {
            Some(TrafficMode::RxOnly)
        } else {
            None
        }
    }

    /// Reads a name, in capitals or small letters; any other text is an
    /// error that quotes it.
    pub fn from_str(s: &str) -> (r: Result<Self, String>)
        ensures
            match r {
                Ok(value) => Self::named(s@) == Some(value),
                Err(message) => Self::named(s@) is None && message@ == "Invalid traffic_mode value: "@
                    + s@,
            },
    {
        let chars = to_chars(s);
        match Self::from_chars(chars.as_slice()) {
            Some(value) => Ok(value),
            None => {
                let mut message = String::from_str("Invalid traffic_mode value: ");
                message.append(s);
                Err(message)
            },
        }
    }

    /// The name in small letters, as `from_str` reads it.
    pub fn to_string(&self) -> (r: String)
        ensures
            r@ == self.label(),
    {
        match self {
            TrafficMode::Both => String::from_str("both"),
            TrafficMode::TxOnly => String::from_str("tx_only"),
            TrafficMode::RxOnly => String::from_str("rx_only"),
        }
    }
}

/// A name that was written by `to_string` is read back by `from_str` as the
/// value it was written for.
pub proof fn lemma_names_read_back(provider: IpProvider, level: LogLevel, mode: TrafficMode)
    ensures
        IpProvider::named(provider.label()) == Some(provider),
        LogLevel::named(level.label()) == Some(level),
        TrafficMode::named(mode.label()) == Some(mode),
{
    reveal_strlit("cloudflare");
    reveal_strlit("ipinfo");
    reveal_strlit("error");
    reveal_strlit("warn");
    reveal_strlit("info");
    reveal_strlit("debug");
    reveal_strlit("trace");
    reveal_strlit("both");
    reveal_strlit("tx_only");
    reveal_strlit("rx_only");
    assert(ascii_lower("warn"@[0]) != ascii_lower("info"@[0]));
    assert(ascii_lower("error"@[0]) != ascii_lower("debug"@[0]));
    assert(ascii_lower("error"@[0]) != ascii_lower("trace"@[0]));
    assert(ascii_lower("debug"@[0]) != ascii_lower("trace"@[0]));
    assert(ascii_lower("tx_only"@[0]) != ascii_lower("rx_only"@[0]));
}

// ==================== Values ====================
/// The message for a value that is not of the kind that `key` takes.
pub open spec fn parse_failure(kind: ValueKind, key: Seq<char>, value: Seq<char>) -> Seq<char> {
    invalid_text(Style::Quoting, 0, kind, key, value)
}

fn failure(kind: ValueKind, key: &str, value: &str) -> (r: String)
    ensures
        r@ == parse_failure(kind, key@, value@),
{
    let key_chars = to_chars(key);
    let value_chars = to_chars(value);
    invalid_message(Style::Quoting, 0, kind, key_chars.as_slice(), value_chars.as_slice())
}

/// Reads a switch: `true`, `1` or `yes` turn it on and `false`, `0` or `no`
/// turn it off, in capitals or small letters.
pub fn parse_bool(value: &str, key: &str) -> (r: Result<bool, String>)
    ensures
        match r {
            Ok(on) => switch_value(value@) == Some(on),
            Err(message) => switch_value(value@) is None && message@ == parse_failure(
                ValueKind::Switch,
                key@,
                value@,
            ),
        },
{
    let chars = to_chars(value);
    match read_switch(chars.as_slice()) {
        Some(on) => Ok(on),
        None => Err(failure(ValueKind::Switch, key, value)),
    }
}

/// Reads a decimal number that fits in 8 bits.
pub fn parse_u8(value: &str, key: &str) -> (r: Result<u8, String>)
    ensures
        match r {
            Ok(n) => parse_unsigned(value@, u8::MAX as nat) == Some(n as nat),
            Err(message) => parse_unsigned(value@, u8::MAX as nat) is None && message@
                == parse_failure(ValueKind::U8, key@, value@),
        },
{
    let chars = to_chars(value);
    match read_unsigned(chars.as_slice(), 255) {
        Some(n) => Ok(n as u8),
        None => Err(failure(ValueKind::U8, key, value)),
    }
}

/// Reads a decimal number that fits in 32 bits.
pub fn parse_u32(value: &str, key: &str) -> (r: Result<u32, String>)
    ensures
        match r {
            Ok(n) => parse_unsigned(value@, u32::MAX as nat) == Some(n as nat),
            Err(message) => parse_unsigned(value@, u32::MAX as nat) is None && message@
                == parse_failure(ValueKind::U32, key@, value@),
        },
{
    let chars = to_chars(value);
    match read_unsigned(chars.as_slice(), 4294967295) {
        Some(n) => Ok(n as u32),
        None => Err(failure(ValueKind::U32, key, value)),
    }
}

/// Reads a decimal number that fits in 64 bits.
pub fn parse_u64(value: &str, key: &str) -> (r: Result<u64, String>)
    ensures
        match r {
            Ok(n) => parse_unsigned(value@, u64::MAX as nat) == Some(n as nat),
            Err(message) => parse_unsigned(value@, u64::MAX as nat) is None && message@
                == parse_failure(ValueKind::U64, key@, value@),
        },
{
    let chars = to_chars(value);
    match read_unsigned(chars.as_slice(), 18446744073709551615) {
        Some(n) => Ok(n),
        None => Err(failure(ValueKind::U64, key, value)),
    }
}

// ==================== Configuration Paths ====================
/// What the choice of a file's place depends on.
#[derive(Debug, Clone)]
pub struct Host {
    /// The host runs Windows.
    pub windows: bool,
    /// The process runs as the administrator.
    pub root: bool,
    /// The user's home directory, where it is known.
    pub home: Option<String>,
}

/// `relative` under the directory `base`, with one `/` between them unless
/// `base` is empty or ends with one.
pub open spec fn path_under(base: Seq<char>, relative: Seq<char>) -> Seq<char> {
    if base.len() == 0 || base.last() == '/' {
        base + relative
    } else {
        base.push('/') + relative
    }
}

/// The place of a file that a user without special rights keeps under the
/// home directory; an error where the home directory is not known.
pub open spec fn path_in_home(home: Option<Seq<char>>, relative: Seq<char>) -> Result<
    Seq<char>,
    Seq<char>,
> {
    match home {
        Some(base) => Ok(path_under(base, relative)),
        None => Err("Failed to get HOME environment variable"@),
    }
}

fn in_home(home: &Option<String>, relative: &str) -> (r: Result<String, String>)
    ensures
        match r {
            Ok(path) => path_in_home(optional_text(*home), relative@) == Ok::<Seq<char>, Seq<char>>(
                path@,
            ),
            Err(message) => path_in_home(optional_text(*home), relative@) == Err::<
                Seq<char>,
                Seq<char>,
            >(message@),
        },
{
    match home {
        None => Err(String::from_str("Failed to get HOME environment variable")),
        Some(base) => {
            let chars = to_chars(base.as_str());
            let mut path = String::from_str(base.as_str());
            if chars.len() > 0 && chars[chars.len() - 1] != '/' {
                path.push('/');
            }
            path.append(relative);
            Ok(path)
        },
    }
}

pub struct ConfigPath;

impl ConfigPath {
    /// Where the settings file is: the place that was asked for, or else
    /// the place that is usual on the host.
    pub open spec fn user_config_place(custom_path: Option<Seq<char>>, host: Host) -> Result<
        Seq<char>,
        Seq<char>,
    > {
        match custom_path {
            Some(path) => Ok(path),
            None => if host.windows {
                Ok("C:\\komari-agent.conf"@)
            } else if host.root {
                Ok("/etc/komari-agent.conf"@)
            } else {
                path_in_home(optional_text(host.home), ".config/komari-agent.conf"@)
            },
        }
    }

    /// Where the file of runtime data is on the host.
    pub open spec fn runtime_data_place(host: Host) -> Result<Seq<char>, Seq<char>> {
        if host.windows {
            Ok("C:\\ProgramData\\komari-monitor\\network-data.conf"@)
        } else if host.root {
            Ok("/var/lib/komari-monitor/network-data.conf"@)
        } else {
            path_in_home(optional_text(host.home), ".local/share/komari-monitor/network-data.conf"@)
        }
    }

    /// Get user configuration file path
    pub fn user_config(custom_path: Option<&str>, host: &Host) -> (r: Result<String, String>)
        ensures
            match r {
                Ok(path) => Self::user_config_place(
                    match custom_path {
                        Some(p) => Some(p@),
                        None => None,
                    },
                    *host,
                ) == Ok::<Seq<char>, Seq<char>>(path@),
                Err(message) => Self::user_config_place(
                    match custom_path {
                        Some(p) => Some(p@),
                        None => None,
                    },
                    *host,
                ) == Err::<Seq<char>, Seq<char>>(message@),
            },
    {
        match custom_path {
            Some(path) => Ok(String::from_str(path)),
            None => {
                if host.windows {
                    Ok(String::from_str("C:\\komari-agent.conf"))
                } else if host.root {
                    Ok(String::from_str("/etc/komari-agent.conf"))
                } else {
                    in_home(&host.home, ".config/komari-agent.conf")
                }
            },
        }
    }

    /// Get runtime data file path
    pub fn runtime_data(host: &Host) -> (r: Result<String, String>)
        ensures
            match r {
                Ok(path) => Self::runtime_data_place(*host) == Ok::<Seq<char>, Seq<char>>(path@),
                Err(message) => Self::runtime_data_place(*host) == Err::<Seq<char>, Seq<char>>(
                    message@,
                ),
            },
    {
        if host.windows {
            Ok(String::from_str("C:\\ProgramData\\komari-monitor\\network-data.conf"))
        } else if host.root {
            Ok(String::from_str("/var/lib/komari-monitor/network-data.conf"))
        } else {
            in_home(&host.home, ".local/share/komari-monitor/network-data.conf")
        }
    }
}

// ==================== Configuration Reader ====================
/// The message for a settings file that does not exist at `path`.
pub open spec fn not_found_text(path: Seq<char>) -> Seq<char> {
    "Configuration file not found: "@ + path
        + "\nPlease create the configuration file or run 'kagent.sh config' to configure."@
}

pub struct ConfigReader;

impl ConfigReader {
    /// Interprets the content of the settings file at `path`; `None` stands
    /// for a file that does not exist. `shell` is the terminal entry that
    /// takes the place of `default`.
    pub fn load_user_config(path: &str, content: Option<&str>, shell: &str) -> (r: Result<
        UserConfig,
        String,
    >)
        ensures
            match content {
                Some(text) => match r {
                    Ok(config) => UserConfigModel::decoded(text@, shell@) == Ok::<
                        UserConfigModel,
                        Seq<char>,
                    >(config@),
                    Err(message) => UserConfigModel::decoded(text@, shell@) == Err::<
                        UserConfigModel,
                        Seq<char>,
                    >(message@),
                },
                None => r matches Err(message) && message@ == not_found_text(path@),
            },
    {
        match content {
            None => {
                let mut message = String::from_str("Configuration file not found: ");
                message.append(path);
                message.append(
                    "\nPlease create the configuration file or run 'kagent.sh config' to configure.",
                );
                Err(message)
            },
            Some(text) => UserConfig::decode(text, shell),
        }
    }

    /// Interprets the content of the file of runtime data; `None` stands
    /// for a file that does not exist.
    pub fn load_runtime_data(content: Option<&str>) -> (r: LoadOutcome)
        ensures
            r@ == match content {
                Some(text) => loaded(text@),
                None => LoadModel::Absent,
            },
    {
        match content {
            None => LoadOutcome::Absent,
            Some(text) => {
                if text.is_empty() {
                    LoadOutcome::Absent
                } else {
                    match RuntimeData::decode(text) {
                        Ok(data) => LoadOutcome::Loaded(data),
                        Err(message) => LoadOutcome::Corrupt(message),
                    }
                }
            },
        }
    }
}


} // verus!
