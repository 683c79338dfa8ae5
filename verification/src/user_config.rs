//! The settings file of the agent.

use vstd::pervasive::unreached;
use vstd::prelude::*;
use vstd::string::StringExecFns;
use crate::config::{lemma_names_read_back, IpProvider, LogLevel, TrafficMode};
use crate::keyvalue::{
    accepts,
    classify,
    entry,
    entry_line,
    first_fault,
    is_faulty,
    is_key,
    is_value,
    join_lines,
    keys_once,
    kind_of,
    last_value,
    lemma_classify_entry,
    lemma_fault_free,
    lemma_kind_of_field,
    lemma_nothing_missing,
    lemma_value_of_single_entry,
    lines_of,
    missing_message,
    missing_text,
    names_distinct,
    read_values,
    switch_at,
    switch_value,
    text_of,
    texts,
    unsigned_at,
    usable,
    Field,
    Rules,
    Style,
    Line,
    ValueKind,
};
use crate::number::{
    decimal,
    decimal_text,
    is_real_notation,
    lemma_parse_unsigned_decimal,
    parse_unsigned,
};
use crate::text::{equals, join, lemma_split_join, optional_text, to_chars, to_text};

verus! {

/// The agent's settings, as the settings file holds them.
#[derive(Debug, Clone, PartialEq)]
pub struct UserConfig {
    // Main Server Configuration
    pub http_server: String,
    pub ws_server: Option<String>,
    pub token: String,
    // TLS Configuration
    pub tls: bool,
    pub ignore_unsafe_cert: bool,
    // Performance Configuration
    /// The factor by which reported figures are multiplied, in the
    /// notation in which it was written.
    pub fake: String,
    pub realtime_info_interval: u64,
    // Feature Configuration
    pub ip_provider: IpProvider,
    pub terminal: bool,
    pub terminal_entry: String,
    pub disable_toast_notify: bool,
    // Network Statistics Configuration
    pub disable_network_statistics: bool,
    pub network_interval: u32,
    pub reset_day: u8,
    pub calibration_tx: u64,
    pub calibration_rx: u64,
    pub traffic_mode: TrafficMode,
    // Logging Configuration
    pub log_level: LogLevel,
}

/// What a `UserConfig` holds, as plain values.
pub struct UserConfigModel {
    pub http_server: Seq<char>,
    pub ws_server: Option<Seq<char>>,
    pub token: Seq<char>,
    pub tls: bool,
    pub ignore_unsafe_cert: bool,
    pub fake: Seq<char>,
    pub realtime_info_interval: u64,
    pub ip_provider: IpProvider,
    pub terminal: bool,
    pub terminal_entry: Seq<char>,
    pub disable_toast_notify: bool,
    pub disable_network_statistics: bool,
    pub network_interval: u32,
    pub reset_day: u8,
    pub calibration_tx: u64,
    pub calibration_rx: u64,
    pub traffic_mode: TrafficMode,
    pub log_level: LogLevel,
}

impl View for UserConfig {
    type V = UserConfigModel;

    open spec fn view(&self) -> UserConfigModel {
        UserConfigModel {
            http_server: self.http_server@,
            ws_server: optional_text(self.ws_server),
            token: self.token@,
            tls: self.tls,
            ignore_unsafe_cert: self.ignore_unsafe_cert,
            fake: self.fake@,
            realtime_info_interval: self.realtime_info_interval,
            ip_provider: self.ip_provider,
            terminal: self.terminal,
            terminal_entry: self.terminal_entry@,
            disable_toast_notify: self.disable_toast_notify,
            disable_network_statistics: self.disable_network_statistics,
            network_interval: self.network_interval,
            reset_day: self.reset_day,
            calibration_tx: self.calibration_tx,
            calibration_rx: self.calibration_rx,
            traffic_mode: self.traffic_mode,
            log_level: self.log_level,
        }
    }
}

/// How a switch is written.
pub open spec fn switch_text(on: bool) -> Seq<char> {
    if on {
        "true"@
    } else {
        "false"@
    }
}

/// The text that the lines give under `key`, or `default` where they give none.
pub open spec fn text_or(lines: Seq<Seq<char>>, key: Seq<char>, default: Seq<char>) -> Seq<char> {
    match last_value(lines, key) {
        Some(value) => value,
        None => default,
    }
}

/// What the lines set the switch `key` to, or `default` where they do not set it.
pub open spec fn switch_or(lines: Seq<Seq<char>>, key: Seq<char>, default: bool) -> bool {
    match last_value(lines, key) {
        Some(value) => switch_value(value)->0,
        None => default,
    }
}

/// The number that the lines give under `key`, or `default` where they give none.
pub open spec fn unsigned_or(lines: Seq<Seq<char>>, key: Seq<char>, max: nat, default: nat) -> nat {
    match last_value(lines, key) {
        Some(value) => parse_unsigned(value, max)->0,
        None => default,
    }
}

/// `day` brought into the range 1 to 31.
pub open spec fn clamped_day(day: nat) -> nat {
    if day < 1 {
        1
    } else if day > 31 {
        31
    } else {
        day
    }
}

impl UserConfigModel {
    /// The settings of a file that sets nothing.
    pub open spec fn initial() -> UserConfigModel {
        UserConfigModel {
            http_server: Seq::empty(),
            ws_server: None,
            token: Seq::empty(),
            tls: false,
            ignore_unsafe_cert: false,
            fake: "1"@,
            realtime_info_interval: 1000,
            ip_provider: IpProvider::Ipinfo,
            terminal: false,
            terminal_entry: "default"@,
            disable_toast_notify: false,
            disable_network_statistics: false,
            network_interval: 10,
            reset_day: 1,
            calibration_tx: 0,
            calibration_rx: 0,
            traffic_mode: TrafficMode::Both,
            log_level: LogLevel::Info,
        }
    }

    /// The keys of the settings file. None is required: a key that is not
    /// set keeps its initial value.
    pub open spec fn fields() -> Seq<Field> {
        seq![
            Field { name: "http_server", kind: ValueKind::Text, required: false },
            Field { name: "ws_server", kind: ValueKind::Text, required: false },
            Field { name: "token", kind: ValueKind::Text, required: false },
            Field { name: "tls", kind: ValueKind::Switch, required: false },
            Field { name: "ignore_unsafe_cert", kind: ValueKind::Switch, required: false },
            Field { name: "fake", kind: ValueKind::Real, required: false },
            Field { name: "realtime_info_interval", kind: ValueKind::U64, required: false },
            Field { name: "ip_provider", kind: ValueKind::Provider, required: false },
            Field { name: "terminal", kind: ValueKind::Switch, required: false },
            Field { name: "terminal_entry", kind: ValueKind::Text, required: false },
            Field { name: "disable_toast_notify", kind: ValueKind::Switch, required: false },
            Field { name: "disable_network_statistics", kind: ValueKind::Switch, required: false },
            Field { name: "network_interval", kind: ValueKind::U32, required: false },
            Field { name: "reset_day", kind: ValueKind::U8, required: false },
            Field { name: "calibration_tx", kind: ValueKind::U64, required: false },
            Field { name: "calibration_rx", kind: ValueKind::U64, required: false },
            Field { name: "traffic_mode", kind: ValueKind::Mode, required: false },
            Field { name: "log_level", kind: ValueKind::Level, required: false },
        ]
    }

    /// A line without `=`, a value of the wrong kind and a key that the
    /// settings do not know are faults.
    pub open spec fn rules() -> Rules {
        Rules { style: Style::Quoting, strict: true, closed: true }
    }

    /// The settings that lines without fault describe. `shell` is the
    /// terminal entry that stands for `default`.
    pub open spec fn assembled(lines: Seq<Seq<char>>, shell: Seq<char>) -> UserConfigModel {
        UserConfigModel {
            http_server: text_or(lines, "http_server"@, Seq::empty()),
            ws_server: match last_value(lines, "ws_server"@) {
                Some(value) => if value.len() == 0 {
                    None
                } else {
                    Some(value)
                },
                None => None,
            },
            token: text_or(lines, "token"@, Seq::empty()),
            tls: switch_or(lines, "tls"@, false),
            ignore_unsafe_cert: switch_or(lines, "ignore_unsafe_cert"@, false),
            fake: text_or(lines, "fake"@, "1"@),
            realtime_info_interval: unsigned_or(
                lines,
                "realtime_info_interval"@,
                u64::MAX as nat,
                1000,
            ) as u64,
            ip_provider: match last_value(lines, "ip_provider"@) {
                Some(value) => IpProvider::named(value)->0,
                None => IpProvider::Ipinfo,
            },
            terminal: switch_or(lines, "terminal"@, false),
            terminal_entry: if text_or(lines, "terminal_entry"@, "default"@) == "default"@ {
                shell
            } else {
                text_or(lines, "terminal_entry"@, "default"@)
            },
            disable_toast_notify: switch_or(lines, "disable_toast_notify"@, false),
            disable_network_statistics: switch_or(lines, "disable_network_statistics"@, false),
            network_interval: unsigned_or(lines, "network_interval"@, u32::MAX as nat, 10) as u32,
            reset_day: clamped_day(unsigned_or(lines, "reset_day"@, u8::MAX as nat, 1)) as u8,
            calibration_tx: unsigned_or(lines, "calibration_tx"@, u64::MAX as nat, 0) as u64,
            calibration_rx: unsigned_or(lines, "calibration_rx"@, u64::MAX as nat, 0) as u64,
            traffic_mode: match last_value(lines, "traffic_mode"@) {
                Some(value) => TrafficMode::named(value)->0,
                None => TrafficMode::Both,
            },
            log_level: match last_value(lines, "log_level"@) {
                Some(value) => LogLevel::named(value)->0,
                None => LogLevel::Info,
            },
        }
    }

    /// What reading `text` gives: the settings it describes, or the message
    /// of its first faulty line, or else the message that names the server
    /// or the token where the settings give none.
    pub open spec fn decoded(text: Seq<char>, shell: Seq<char>) -> Result<
        UserConfigModel,
        Seq<char>,
    > {
        let lines = lines_of(text);
        match first_fault(Self::fields(), Self::rules(), lines) {
            Some(message) => Err(message),
            None => {
                let config = Self::assembled(lines, shell);
                if config.http_server.len() == 0 {
                    Err(missing_text(Style::Quoting, "http_server"@))
                } else if config.token.len() == 0 {
                    Err(missing_text(Style::Quoting, "token"@))
                } else {
                    Ok(config)
                }
            },
        }
    }

    /// The lines of the settings file, comments and empty lines included.
    pub open spec fn lines(self) -> Seq<Seq<char>> {
        seq![
            "# Komari Monitor Agent Configuration"@,
            Seq::empty(),
            "# ==================== Main Server Configuration ===================="@,
            entry_line("http_server"@, self.http_server),
            entry_line(
                "ws_server"@,
                match self.ws_server {
                    Some(server) => server,
                    None => Seq::empty(),
                },
            ),
            entry_line("token"@, self.token),
            Seq::empty(),
            "# ==================== TLS Configuration ===================="@,
            entry_line("tls"@, switch_text(self.tls)),
            entry_line("ignore_unsafe_cert"@, switch_text(self.ignore_unsafe_cert)),
            Seq::empty(),
            "# ==================== Performance Configuration ===================="@,
            entry_line("fake"@, self.fake),
            entry_line("realtime_info_interval"@, decimal(self.realtime_info_interval as nat)),
            Seq::empty(),
            "# ==================== Feature Configuration ===================="@,
            entry_line("ip_provider"@, self.ip_provider.label()),
            entry_line("terminal"@, switch_text(self.terminal)),
            entry_line("terminal_entry"@, self.terminal_entry),
            entry_line("disable_toast_notify"@, switch_text(self.disable_toast_notify)),
            Seq::empty(),
            "# ==================== Network Statistics Configuration ===================="@,
            entry_line(
                "disable_network_statistics"@,
                switch_text(self.disable_network_statistics),
            ),
            entry_line("network_interval"@, decimal(self.network_interval as nat)),
            entry_line("reset_day"@, decimal(self.reset_day as nat)),
            entry_line("calibration_tx"@, decimal(self.calibration_tx as nat)),
            entry_line("calibration_rx"@, decimal(self.calibration_rx as nat)),
            entry_line("traffic_mode"@, self.traffic_mode.label()),
            Seq::empty(),
            "# ==================== Logging Configuration ===================="@,
            entry_line("log_level"@, self.log_level.label()),
        ]
    }

    /// The text of the settings file.
    pub open spec fn encoded(self) -> Seq<char> {
        join(self.lines(), '\n')
    }
}

/// The text that the settings file holds for the field at place `k`.
pub open spec fn written_value(config: UserConfigModel, k: int) -> Seq<char> {
    if k == 0 {
        config.http_server
    } else if k == 1 {
        match config.ws_server {
            Some(server) => server,
            None => Seq::empty(),
        }
    } else if k == 2 {
        config.token
    } else if k == 3 {
        switch_text(config.tls)
    } else if k == 4 {
        switch_text(config.ignore_unsafe_cert)
    } else if k == 5 {
        config.fake
    } else if k == 6 {
        decimal(config.realtime_info_interval as nat)
    } else if k == 7 {
        config.ip_provider.label()
    } else if k == 8 {
        switch_text(config.terminal)
    } else if k == 9 {
        config.terminal_entry
    } else if k == 10 {
        switch_text(config.disable_toast_notify)
    } else if k == 11 {
        switch_text(config.disable_network_statistics)
    } else if k == 12 {
        decimal(config.network_interval as nat)
    } else if k == 13 {
        decimal(config.reset_day as nat)
    } else if k == 14 {
        decimal(config.calibration_tx as nat)
    } else if k == 15 {
        decimal(config.calibration_rx as nat)
    } else if k == 16 {
        config.traffic_mode.label()
    } else {
        config.log_level.label()
    }
}

/// The place in the schema of the field that line `i` of the settings file
/// carries, or -1 for a line that carries none.
pub open spec fn field_of_line(i: int) -> int {
    if 3 <= i <= 5 {
        i - 3
    } else if 8 <= i <= 9 {
        i - 5
    } else if 12 <= i <= 13 {
        i - 7
    } else if 16 <= i <= 19 {
        i - 9
    } else if 22 <= i <= 27 {
        i - 11
    } else if i == 30 {
        17
    } else {
        -1
    }
}

/// The line of the settings file that carries the field at place `k`.
pub open spec fn line_of_field(k: int) -> int {
    if k <= 2 {
        k + 3
    } else if k <= 4 {
        k + 5
    } else if k <= 6 {
        k + 7
    } else if k <= 10 {
        k + 9
    } else if k <= 16 {
        k + 11
    } else {
        30
    }
}

impl UserConfigModel {
    /// Settings that the file gives back as they are: a server and a token,
    /// texts that are trimmed and on one line, a factor in real notation, a
    /// terminal entry other than `default`, and a reset day of the month.
    pub open spec fn settled(self) -> bool {
        &&& is_value(self.http_server) && self.http_server.len() > 0
        &&& is_value(self.token) && self.token.len() > 0
        &&& (self.ws_server matches Some(server) ==> is_value(server) && server.len() > 0)
        &&& is_value(self.fake) && is_real_notation(self.fake)
        &&& is_value(self.terminal_entry) && self.terminal_entry != "default"@
        &&& 1 <= self.reset_day <= 31
    }
}

proof fn lemma_settings_keys()
    ensures
        forall|k: int|
            0 <= k < 18 ==> is_key((#[trigger] UserConfigModel::fields()[k]).name@) && kind_of(
                UserConfigModel::fields(),
                UserConfigModel::fields()[k].name@,
            ) == Some(UserConfigModel::fields()[k].kind),
        names_distinct(UserConfigModel::fields()),
        UserConfigModel::fields().len() == 18,
{
    let f = UserConfigModel::fields();
    lemma_settings_names();
    reveal_strlit("http_server");
    reveal_strlit("ws_server");
    reveal_strlit("token");
    reveal_strlit("tls");
    reveal_strlit("ignore_unsafe_cert");
    reveal_strlit("fake");
    reveal_strlit("realtime_info_interval");
    reveal_strlit("ip_provider");
    reveal_strlit("terminal");
    reveal_strlit("terminal_entry");
    reveal_strlit("disable_toast_notify");
    reveal_strlit("disable_network_statistics");
    reveal_strlit("network_interval");
    reveal_strlit("reset_day");
    reveal_strlit("calibration_tx");
    reveal_strlit("calibration_rx");
    reveal_strlit("traffic_mode");
    reveal_strlit("log_level");
    assert(is_key(f[0].name@) && is_key(f[1].name@) && is_key(f[2].name@));
    assert(is_key(f[3].name@) && is_key(f[4].name@) && is_key(f[5].name@));
    assert(is_key(f[6].name@) && is_key(f[7].name@) && is_key(f[8].name@));
    assert(is_key(f[9].name@) && is_key(f[10].name@) && is_key(f[11].name@));
    assert(is_key(f[12].name@) && is_key(f[13].name@) && is_key(f[14].name@));
    assert(is_key(f[15].name@) && is_key(f[16].name@) && is_key(f[17].name@));
    assert forall|k: int| 0 <= k < 18 implies is_key((#[trigger] f[k]).name@) && kind_of(
        f,
        f[k].name@,
    ) == Some(f[k].kind) by {
        lemma_kind_of_field(f, k);
    }
}

proof fn lemma_switch_text(on: bool)
    ensures
        is_value(switch_text(on)),
        switch_value(switch_text(on)) == Some(on),
{
    reveal_strlit("true");
    reveal_strlit("false");
    reveal_strlit("1");
    reveal_strlit("yes");
    reveal_strlit("0");
    reveal_strlit("no");
    assert("true"@[0] == 't' && "true"@.last() == 'e');
    assert("false"@[0] == 'f' && "false"@.last() == 'e');
}

proof fn lemma_labels(provider: IpProvider, level: LogLevel, mode: TrafficMode)
    ensures
        is_value(provider.label()),
        is_value(level.label()),
        is_value(mode.label()),
        IpProvider::named(provider.label()) == Some(provider),
        LogLevel::named(level.label()) == Some(level),
        TrafficMode::named(mode.label()) == Some(mode),
{
    lemma_names_read_back(provider, level, mode);
    reveal_strlit("cloudflare");
    reveal_strlit("ipinfo");
    reveal_strlit("error");
    reveal_strlit("warn");
    reveal_strlit("info");
    reveal_strlit("debug");
    reveal_strlit("trace");
    reveal_strlit("both");
    reveal_strlit("tx_only");
    reveal_strlit("rx_only");
    assert(provider.label()[0] == 'c' || provider.label()[0] == 'i');
    assert(provider.label().last() == 'e' || provider.label().last() == 'o');
    assert(is_value(level.label())) by {
        let l = level.label();
        assert(l[0] == 'e' || l[0] == 'w' || l[0] == 'i' || l[0] == 'd' || l[0] == 't');
        assert(l.last() == 'r' || l.last() == 'n' || l.last() == 'o' || l.last() == 'g' || l.last()
            == 'e');
    }
    assert(is_value(mode.label())) by {
        let m = mode.label();
        assert(m[0] == 'b' || m[0] == 't' || m[0] == 'r');
        assert(m.last() == 'h' || m.last() == 'y');
    }
}

/// What settled settings write under each key is of the kind of the key,
/// trimmed and on one line.
proof fn lemma_written_values(config: UserConfigModel)
    requires
        config.settled(),
    ensures
        forall|k: int|
            0 <= k < 18 ==> is_value(#[trigger] written_value(config, k)) && accepts(
                UserConfigModel::fields()[k].kind,
                written_value(config, k),
            ),
{
    let f = UserConfigModel::fields();
    lemma_switch_text(config.tls);
    lemma_switch_text(config.ignore_unsafe_cert);
    lemma_switch_text(config.terminal);
    lemma_switch_text(config.disable_toast_notify);
    lemma_switch_text(config.disable_network_statistics);
    lemma_labels(config.ip_provider, config.log_level, config.traffic_mode);
    lemma_parse_unsigned_decimal(config.realtime_info_interval as nat, u64::MAX as nat);
    lemma_parse_unsigned_decimal(config.network_interval as nat, u32::MAX as nat);
    lemma_parse_unsigned_decimal(config.reset_day as nat, u8::MAX as nat);
    lemma_parse_unsigned_decimal(config.calibration_tx as nat, u64::MAX as nat);
    lemma_parse_unsigned_decimal(config.calibration_rx as nat, u64::MAX as nat);
    assert(is_value(Seq::<char>::empty()));
    assert(f[3].kind == ValueKind::Switch && f[4].kind == ValueKind::Switch);
    assert(f[5].kind == ValueKind::Real && f[6].kind == ValueKind::U64);
    assert(f[7].kind == ValueKind::Provider && f[8].kind == ValueKind::Switch);
    assert(f[10].kind == ValueKind::Switch && f[11].kind == ValueKind::Switch);
    assert(f[12].kind == ValueKind::U32 && f[13].kind == ValueKind::U8);
    assert(f[14].kind == ValueKind::U64 && f[15].kind == ValueKind::U64);
    assert(f[16].kind == ValueKind::Mode && f[17].kind == ValueKind::Level);
    assert(f[0].kind == ValueKind::Text && f[1].kind == ValueKind::Text);
    assert(f[2].kind == ValueKind::Text && f[9].kind == ValueKind::Text);
}

/// The headings of the settings file carry nothing and are on one line.
proof fn lemma_headings(config: UserConfigModel)
    ensures
        forall|i: int|
            0 <= i < 31 && field_of_line(i) < 0 ==> classify(#[trigger] config.lines()[i])
                is Blank && (forall|j: int|
                0 <= j < config.lines()[i].len() ==> config.lines()[i][j] != '\n'),
        config.lines().len() == 31,
{
    reveal_strlit("# Komari Monitor Agent Configuration");
    reveal_strlit("# ==================== Main Server Configuration ====================");
    reveal_strlit("# ==================== TLS Configuration ====================");
    reveal_strlit("# ==================== Performance Configuration ====================");
    reveal_strlit("# ==================== Feature Configuration ====================");
    reveal_strlit(
        "# ==================== Network Statistics Configuration ====================",
    );
    reveal_strlit("# ==================== Logging Configuration ====================");
    let lines = config.lines();
    assert(lines[0][0] == '#' && lines[0].last() == 'n');
    assert(lines[2][0] == '#' && lines[2].last() == '=');
    assert(lines[7][0] == '#' && lines[7].last() == '=');
    assert(lines[11][0] == '#' && lines[11].last() == '=');
    assert(lines[15][0] == '#' && lines[15].last() == '=');
    assert(lines[21][0] == '#' && lines[21].last() == '=');
    assert(lines[29][0] == '#' && lines[29].last() == '=');
    assert(classify(lines[0]) is Blank);
    assert(classify(lines[1]) is Blank);
    assert(classify(lines[2]) is Blank);
    assert(classify(lines[6]) is Blank);
    assert(classify(lines[7]) is Blank);
    assert(classify(lines[10]) is Blank);
    assert(classify(lines[11]) is Blank);
    assert(classify(lines[14]) is Blank);
    assert(classify(lines[15]) is Blank);
    assert(classify(lines[20]) is Blank);
    assert(classify(lines[21]) is Blank);
    assert(classify(lines[28]) is Blank);
    assert(classify(lines[29]) is Blank);
}

/// An entry under a proper key, with a value that is trimmed and on one
/// line, is read as that key and value and is itself on one line.
proof fn lemma_entry_facts(key: Seq<char>, value: Seq<char>)
    requires
        is_key(key),
        is_value(value),
    ensures
        classify(entry_line(key, value)) == (Line::Pair { key, value }),
        forall|j: int| 0 <= j < entry_line(key, value).len() ==> entry_line(key, value)[j] != '\n',
{
    lemma_classify_entry(key, value);
    let line = entry_line(key, value);
    assert forall|j: int| 0 <= j < line.len() implies line[j] != '\n' by {
        if j < key.len() {
            assert(line[j] == key[j]);
        } else if j > key.len() {
            assert(line[j] == value[j - key.len() - 1]);
        }
    }
}

/// Line `i` of the settings file is the entry of the field it carries.
proof fn lemma_line_is_entry(config: UserConfigModel, i: int)
    requires
        0 <= i < 31,
        field_of_line(i) >= 0,
    ensures
        config.lines()[i] == entry_line(
            UserConfigModel::fields()[field_of_line(i)].name@,
            written_value(config, field_of_line(i)),
        ),
{
}

/// Each line of settled settings is a heading or the entry of its field.
proof fn lemma_settings_lines(config: UserConfigModel)
    requires
        config.settled(),
    ensures
        config.lines().len() == 31,
        forall|i: int|
            0 <= i < 31 ==> (forall|j: int|
                0 <= j < (#[trigger] config.lines()[i]).len() ==> config.lines()[i][j] != '\n'),
        forall|i: int|
            0 <= i < 31 && field_of_line(i) < 0 ==> classify(#[trigger] config.lines()[i])
                is Blank,
        forall|i: int|
            0 <= i < 31 && field_of_line(i) >= 0 ==> classify(#[trigger] config.lines()[i]) == (
            Line::Pair {
                key: UserConfigModel::fields()[field_of_line(i)].name@,
                value: written_value(config, field_of_line(i)),
            }),
{
    lemma_headings(config);
    assert forall|i: int| 0 <= i < 31 && field_of_line(i) >= 0 implies classify(
        #[trigger] config.lines()[i],
    ) == (Line::Pair {
        key: UserConfigModel::fields()[field_of_line(i)].name@,
        value: written_value(config, field_of_line(i)),
    }) && (forall|j: int| 0 <= j < config.lines()[i].len() ==> config.lines()[i][j] != '\n') by {
        lemma_settings_entry(config, i);
    }
}

proof fn lemma_settings_entry(config: UserConfigModel, i: int)
    requires
        config.settled(),
        0 <= i < 31,
        field_of_line(i) >= 0,
    ensures
        classify(config.lines()[i]) == (Line::Pair {
            key: UserConfigModel::fields()[field_of_line(i)].name@,
            value: written_value(config, field_of_line(i)),
        }),
        forall|j: int| 0 <= j < config.lines()[i].len() ==> config.lines()[i][j] != '\n',
{
    let k = field_of_line(i);
    lemma_settings_keys();
    lemma_written_values(config);
    lemma_line_is_entry(config, i);
    let key = UserConfigModel::fields()[k].name@;
    let value = written_value(config, k);
    assert(is_key(key));
    assert(is_value(value));
    lemma_entry_facts(key, value);
}

/// What settled settings write is read back as the same settings.
pub proof fn lemma_settings_decode_encode(config: UserConfigModel, shell: Seq<char>)
    requires
        config.settled(),
    ensures
        UserConfigModel::decoded(config.encoded(), shell) == Ok::<UserConfigModel, Seq<char>>(
            config,
        ),
{
    let lines = config.lines();
    let f = UserConfigModel::fields();
    let rules = UserConfigModel::rules();
    lemma_settings_keys();
    lemma_written_values(config);
    lemma_settings_lines(config);
    assert forall|k: int, j: int| 0 <= k < lines.len() && 0 <= j < lines[k].len() implies (
    #[trigger] lines[k][j]) != '\n' by {
        assert(forall|j: int| 0 <= j < lines[k].len() ==> lines[k][j] != '\n');
    }
    lemma_split_join(lines, '\n');
    lemma_fault_free(f, rules, lines);
    assert forall|i: int| 0 <= i < lines.len() implies !is_faulty(f, rules, #[trigger] lines[i]) by {
        if field_of_line(i) >= 0 {
            assert(accepts(f[field_of_line(i)].kind, written_value(config, field_of_line(i))));
        }
    }
    assert(keys_once(lines)) by {
        assert forall|a: int, b: int| 0 <= a < b < lines.len() implies !(classify(
            #[trigger] lines[a],
        ) matches Line::Pair { key: first, .. } && classify(
            #[trigger] lines[b],
        ) matches Line::Pair { key: second, .. } && first == second) by {
            if field_of_line(a) >= 0 && field_of_line(b) >= 0 {
                assert(field_of_line(a) < field_of_line(b));
                assert(f[field_of_line(a)].name@ != f[field_of_line(b)].name@);
            }
        }
    }
    assert forall|k: int| 0 <= k < 18 implies last_value(lines, (#[trigger] f[k]).name@) == Some(
        written_value(config, k),
    ) by {
        let i = line_of_field(k);
        assert(field_of_line(i) == k);
        lemma_value_of_single_entry(lines, i);
    }
    lemma_settings_assembled(config, lines, shell);
}

/// Lines that give each key what settled settings write assemble to those
/// settings.
proof fn lemma_settings_assembled(config: UserConfigModel, lines: Seq<Seq<char>>, shell: Seq<char>)
    requires
        config.settled(),
        forall|k: int|
            0 <= k < 18 ==> last_value(lines, (#[trigger] UserConfigModel::fields()[k]).name@)
                == Some(written_value(config, k)),
    ensures
        UserConfigModel::assembled(lines, shell) == config,
{
    let f = UserConfigModel::fields();
    lemma_switch_text(config.tls);
    lemma_switch_text(config.ignore_unsafe_cert);
    lemma_switch_text(config.terminal);
    lemma_switch_text(config.disable_toast_notify);
    lemma_switch_text(config.disable_network_statistics);
    lemma_labels(config.ip_provider, config.log_level, config.traffic_mode);
    lemma_parse_unsigned_decimal(config.realtime_info_interval as nat, u64::MAX as nat);
    lemma_parse_unsigned_decimal(config.network_interval as nat, u32::MAX as nat);
    lemma_parse_unsigned_decimal(config.reset_day as nat, u8::MAX as nat);
    lemma_parse_unsigned_decimal(config.calibration_tx as nat, u64::MAX as nat);
    lemma_parse_unsigned_decimal(config.calibration_rx as nat, u64::MAX as nat);
    assert(f[0].name@ == "http_server"@ && last_value(lines, f[0].name@) == Some(
        written_value(config, 0),
    ));
    assert(f[1].name@ == "ws_server"@ && last_value(lines, f[1].name@) == Some(
        written_value(config, 1),
    ));
    assert(f[2].name@ == "token"@ && last_value(lines, f[2].name@) == Some(
        written_value(config, 2),
    ));
    assert(f[3].name@ == "tls"@ && last_value(lines, f[3].name@) == Some(
        written_value(config, 3),
    ));
    assert(f[4].name@ == "ignore_unsafe_cert"@ && last_value(lines, f[4].name@) == Some(
        written_value(config, 4),
    ));
    assert(f[5].name@ == "fake"@ && last_value(lines, f[5].name@) == Some(
        written_value(config, 5),
    ));
    assert(f[6].name@ == "realtime_info_interval"@ && last_value(lines, f[6].name@) == Some(
        written_value(config, 6),
    ));
    assert(f[7].name@ == "ip_provider"@ && last_value(lines, f[7].name@) == Some(
        written_value(config, 7),
    ));
    assert(f[8].name@ == "terminal"@ && last_value(lines, f[8].name@) == Some(
        written_value(config, 8),
    ));
    assert(f[9].name@ == "terminal_entry"@ && last_value(lines, f[9].name@) == Some(
        written_value(config, 9),
    ));
    assert(f[10].name@ == "disable_toast_notify"@ && last_value(lines, f[10].name@) == Some(
        written_value(config, 10),
    ));
    assert(f[11].name@ == "disable_network_statistics"@ && last_value(lines, f[11].name@) == Some(
        written_value(config, 11),
    ));
    assert(f[12].name@ == "network_interval"@ && last_value(lines, f[12].name@) == Some(
        written_value(config, 12),
    ));
    assert(f[13].name@ == "reset_day"@ && last_value(lines, f[13].name@) == Some(
        written_value(config, 13),
    ));
    assert(f[14].name@ == "calibration_tx"@ && last_value(lines, f[14].name@) == Some(
        written_value(config, 14),
    ));
    assert(f[15].name@ == "calibration_rx"@ && last_value(lines, f[15].name@) == Some(
        written_value(config, 15),
    ));
    assert(f[16].name@ == "traffic_mode"@ && last_value(lines, f[16].name@) == Some(
        written_value(config, 16),
    ));
    assert(f[17].name@ == "log_level"@ && last_value(lines, f[17].name@) == Some(
        written_value(config, 17),
    ));
    let got = UserConfigModel::assembled(lines, shell);
    assert(got.ws_server == config.ws_server);
    assert(got.terminal_entry == config.terminal_entry);
    assert(got.reset_day == config.reset_day);
}

impl Default for UserConfig {
    fn default() -> (r: Self)
        ensures
            r@ == UserConfigModel::initial(),
    {
        UserConfig {
            http_server: String::new(),
            ws_server: None,
            token: String::new(),
            tls: false,
            ignore_unsafe_cert: false,
            fake: String::from_str("1"),
            realtime_info_interval: 1000,
            ip_provider: IpProvider::Ipinfo,
            terminal: false,
            terminal_entry: String::from_str("default"),
            disable_toast_notify: false,
            disable_network_statistics: false,
            network_interval: 10,
            reset_day: 1,
            calibration_tx: 0,
            calibration_rx: 0,
            traffic_mode: TrafficMode::Both,
            log_level: LogLevel::Info,
        }
    }
}

proof fn lemma_settings_names()
    ensures
        names_distinct(UserConfigModel::fields()),
{
    reveal_strlit("http_server");
    reveal_strlit("ws_server");
    reveal_strlit("token");
    reveal_strlit("tls");
    reveal_strlit("ignore_unsafe_cert");
    reveal_strlit("fake");
    reveal_strlit("realtime_info_interval");
    reveal_strlit("ip_provider");
    reveal_strlit("terminal");
    reveal_strlit("terminal_entry");
    reveal_strlit("disable_toast_notify");
    reveal_strlit("disable_network_statistics");
    reveal_strlit("network_interval");
    reveal_strlit("reset_day");
    reveal_strlit("calibration_tx");
    reveal_strlit("calibration_rx");
    reveal_strlit("traffic_mode");
    reveal_strlit("log_level");
    let f = UserConfigModel::fields();
    assert(f[0].name@.len() == 11 && f[0].name@[0] == 'h');
    assert(f[1].name@.len() == 9 && f[1].name@[0] == 'w');
    assert(f[2].name@.len() == 5);
    assert(f[3].name@.len() == 3);
    assert(f[4].name@.len() == 18);
    assert(f[5].name@.len() == 4);
    assert(f[6].name@.len() == 22);
    assert(f[7].name@.len() == 11 && f[7].name@[0] == 'i');
    assert(f[8].name@.len() == 8);
    assert(f[9].name@.len() == 14 && f[9].name@[0] == 't');
    assert(f[10].name@.len() == 20);
    assert(f[11].name@.len() == 26);
    assert(f[12].name@.len() == 16);
    assert(f[13].name@.len() == 9 && f[13].name@[0] == 'r');
    assert(f[14].name@.len() == 14 && f[14].name@[0] == 'c' && f[14].name@[12] == 't');
    assert(f[15].name@.len() == 14 && f[15].name@[0] == 'c' && f[15].name@[12] == 'r');
    assert(f[16].name@.len() == 12);
    assert(f[17].name@.len() == 9 && f[17].name@[0] == 'l');
}

fn settings_schema() -> (r: Vec<Field>)
    ensures
        r@ == UserConfigModel::fields(),
        names_distinct(r@),
{
    let mut r: Vec<Field> = Vec::new();
    r.push(Field { name: "http_server", kind: ValueKind::Text, required: false });
    r.push(Field { name: "ws_server", kind: ValueKind::Text, required: false });
    r.push(Field { name: "token", kind: ValueKind::Text, required: false });
    r.push(Field { name: "tls", kind: ValueKind::Switch, required: false });
    r.push(Field { name: "ignore_unsafe_cert", kind: ValueKind::Switch, required: false });
    r.push(Field { name: "fake", kind: ValueKind::Real, required: false });
    r.push(Field { name: "realtime_info_interval", kind: ValueKind::U64, required: false });
    r.push(Field { name: "ip_provider", kind: ValueKind::Provider, required: false });
    r.push(Field { name: "terminal", kind: ValueKind::Switch, required: false });
    r.push(Field { name: "terminal_entry", kind: ValueKind::Text, required: false });
    r.push(Field { name: "disable_toast_notify", kind: ValueKind::Switch, required: false });
    r.push(Field { name: "disable_network_statistics", kind: ValueKind::Switch, required: false });
    r.push(Field { name: "network_interval", kind: ValueKind::U32, required: false });
    r.push(Field { name: "reset_day", kind: ValueKind::U8, required: false });
    r.push(Field { name: "calibration_tx", kind: ValueKind::U64, required: false });
    r.push(Field { name: "calibration_rx", kind: ValueKind::U64, required: false });
    r.push(Field { name: "traffic_mode", kind: ValueKind::Mode, required: false });
    r.push(Field { name: "log_level", kind: ValueKind::Level, required: false });
    proof {
        assert(r@ =~= UserConfigModel::fields());
        lemma_settings_names();
    }
    r
}

fn switch_string(on: bool) -> (r: String)
    ensures
        r@ == switch_text(on),
{
    if on {
        String::from_str("true")
    } else {
        String::from_str("false")
    }
}

fn text_at_or(values: &Vec<Option<&[char]>>, k: usize, default: &str) -> (r: String)
    requires
        k < values@.len(),
    ensures
        r@ == match text_of(values@[k as int]) {
            Some(value) => value,
            None => default@,
        },
{
    match values[k] {
        Some(value) => to_text(value),
        None => String::from_str(default),
    }
}

fn switch_at_or(values: &Vec<Option<&[char]>>, k: usize, default: bool) -> (r: bool)
    requires
        k < values@.len(),
        values@[k as int] matches Some(value) ==> switch_value(value@) is Some,
    ensures
        r == match text_of(values@[k as int]) {
            Some(value) => switch_value(value)->0,
            None => default,
        },
{
    match values[k] {
        Some(_) => switch_at(values, k),
        None => default,
    }
}

fn unsigned_at_or(values: &Vec<Option<&[char]>>, k: usize, max: u64, default: u64) -> (r: u64)
    requires
        k < values@.len(),
        default <= max,
        values@[k as int] matches Some(value) ==> parse_unsigned(value@, max as nat) is Some,
    ensures
        r == match text_of(values@[k as int]) {
            Some(value) => parse_unsigned(value, max as nat)->0,
            None => default as nat,
        },
        r <= max,
{
    match values[k] {
        Some(_) => unsigned_at(values, k, max),
        None => default,
    }
}

/// The terminal entry that stands for `default` on a host.
pub fn default_terminal_entry(windows: bool, bash_present: bool) -> (r: &'static str)
    ensures
        r@ == if windows {
            "cmd.exe"@
        } else if bash_present {
            "bash"@
        } else {
            "sh"@
        },
{
    if windows {
        "cmd.exe"
    } else if bash_present {
        "bash"
    } else {
        "sh"
    }
}

impl UserConfig {
    /// Encode configuration to key=value format
    pub fn encode(&self) -> (r: String)
        ensures
            r@ == self@.encoded(),
    {
        let mut lines: Vec<String> = Vec::new();
        lines.push(String::from_str("# Komari Monitor Agent Configuration"));
        lines.push(String::new());
        lines.push(
            String::from_str(
                "# ==================== Main Server Configuration ====================",
            ),
        );
        lines.push(entry("http_server", self.http_server.as_str()));
        match &self.ws_server {
            Some(server) => {
                lines.push(entry("ws_server", server.as_str()));
            },
            None => {
                let nothing = String::new();
                lines.push(entry("ws_server", nothing.as_str()));
            },
        }
        lines.push(entry("token", self.token.as_str()));
        lines.push(String::new());
        lines.push(
            String::from_str("# ==================== TLS Configuration ===================="),
        );
        lines.push(entry("tls", switch_string(self.tls).as_str()));
        lines.push(entry("ignore_unsafe_cert", switch_string(self.ignore_unsafe_cert).as_str()));
        lines.push(String::new());
        lines.push(
            String::from_str(
                "# ==================== Performance Configuration ====================",
            ),
        );
        lines.push(entry("fake", self.fake.as_str()));
        lines.push(
            entry("realtime_info_interval", decimal_text(self.realtime_info_interval).as_str()),
        );
        lines.push(String::new());
        lines.push(
            String::from_str("# ==================== Feature Configuration ===================="),
        );
        lines.push(entry("ip_provider", self.ip_provider.to_string().as_str()));
        lines.push(entry("terminal", switch_string(self.terminal).as_str()));
        lines.push(entry("terminal_entry", self.terminal_entry.as_str()));
        lines.push(
            entry("disable_toast_notify", switch_string(self.disable_toast_notify).as_str()),
        );
        lines.push(String::new());
        lines.push(
            String::from_str(
                "# ==================== Network Statistics Configuration ====================",
            ),
        );
        lines.push(
            entry(
                "disable_network_statistics",
                switch_string(self.disable_network_statistics).as_str(),
            ),
        );
        lines.push(entry("network_interval", decimal_text(self.network_interval as u64).as_str()));
        lines.push(entry("reset_day", decimal_text(self.reset_day as u64).as_str()));
        lines.push(entry("calibration_tx", decimal_text(self.calibration_tx).as_str()));
        lines.push(entry("calibration_rx", decimal_text(self.calibration_rx).as_str()));
        lines.push(entry("traffic_mode", self.traffic_mode.to_string().as_str()));
        lines.push(String::new());
        lines.push(
            String::from_str("# ==================== Logging Configuration ===================="),
        );
        lines.push(entry("log_level", self.log_level.to_string().as_str()));
        proof {
            assert(texts(lines@) =~= self@.lines());
        }
        join_lines(&lines)
    }

    /// Decode configuration from key=value format. `shell` is the terminal
    /// entry that takes the place of `default`.
    pub fn decode(content: &str, shell: &str) -> (r: Result<Self, String>)
        ensures
            match r {
                Ok(config) => UserConfigModel::decoded(content@, shell@) == Ok::<
                    UserConfigModel,
                    Seq<char>,
                >(config@),
                Err(message) => UserConfigModel::decoded(content@, shell@) == Err::<
                    UserConfigModel,
                    Seq<char>,
                >(message@),
            },
    {
        let chars = to_chars(content);
        let schema = settings_schema();
        let rules = Rules { style: Style::Quoting, strict: true, closed: true };
        let values = match read_values(chars.as_slice(), schema.as_slice(), rules) {
            Ok(values) => values,
            Err(message) => {
                proof {
                    lemma_nothing_missing(UserConfigModel::fields(), lines_of(content@));
                }
                return Err(message);
            },
        };
        proof {
            lemma_settings_read(values@, lines_of(content@));
        }
        let config = assemble(&values, shell, Ghost(lines_of(content@)));
        if config.http_server.as_str().is_empty() {
            return Err(missing_message(Style::Quoting, "http_server"));
        }
        if config.token.as_str().is_empty() {
            return Err(missing_message(Style::Quoting, "token"));
        }
        Ok(config)
    }
}

/// The values that were read are those that the lines give under the keys
/// of the settings, each of the kind of its key.
spec fn settings_read(values: Seq<Option<&[char]>>, lines: Seq<Seq<char>>) -> bool {
    &&& values.len() == 18
    &&& text_of(values[0]) == last_value(lines, "http_server"@)
    &&& text_of(values[1]) == last_value(lines, "ws_server"@)
    &&& text_of(values[2]) == last_value(lines, "token"@)
    &&& text_of(values[3]) == last_value(lines, "tls"@)
    &&& text_of(values[4]) == last_value(lines, "ignore_unsafe_cert"@)
    &&& text_of(values[5]) == last_value(lines, "fake"@)
    &&& text_of(values[6]) == last_value(lines, "realtime_info_interval"@)
    &&& text_of(values[7]) == last_value(lines, "ip_provider"@)
    &&& text_of(values[8]) == last_value(lines, "terminal"@)
    &&& text_of(values[9]) == last_value(lines, "terminal_entry"@)
    &&& text_of(values[10]) == last_value(lines, "disable_toast_notify"@)
    &&& text_of(values[11]) == last_value(lines, "disable_network_statistics"@)
    &&& text_of(values[12]) == last_value(lines, "network_interval"@)
    &&& text_of(values[13]) == last_value(lines, "reset_day"@)
    &&& text_of(values[14]) == last_value(lines, "calibration_tx"@)
    &&& text_of(values[15]) == last_value(lines, "calibration_rx"@)
    &&& text_of(values[16]) == last_value(lines, "traffic_mode"@)
    &&& text_of(values[17]) == last_value(lines, "log_level"@)
    &&& (values[3] matches Some(v) ==> switch_value(v@) is Some)
    &&& (values[4] matches Some(v) ==> switch_value(v@) is Some)
    &&& (values[6] matches Some(v) ==> parse_unsigned(v@, u64::MAX as nat) is Some)
    &&& (values[7] matches Some(v) ==> IpProvider::named(v@) is Some)
    &&& (values[8] matches Some(v) ==> switch_value(v@) is Some)
    &&& (values[10] matches Some(v) ==> switch_value(v@) is Some)
    &&& (values[11] matches Some(v) ==> switch_value(v@) is Some)
    &&& (values[12] matches Some(v) ==> parse_unsigned(v@, u32::MAX as nat) is Some)
    &&& (values[13] matches Some(v) ==> parse_unsigned(v@, u8::MAX as nat) is Some)
    &&& (values[14] matches Some(v) ==> parse_unsigned(v@, u64::MAX as nat) is Some)
    &&& (values[15] matches Some(v) ==> parse_unsigned(v@, u64::MAX as nat) is Some)
    &&& (values[16] matches Some(v) ==> TrafficMode::named(v@) is Some)
    &&& (values[17] matches Some(v) ==> LogLevel::named(v@) is Some)
}

proof fn lemma_settings_read(values: Seq<Option<&[char]>>, lines: Seq<Seq<char>>)
    requires
        values.len() == UserConfigModel::fields().len(),
        forall|k: int|
            0 <= k < UserConfigModel::fields().len() ==> text_of(#[trigger] values[k])
                == last_value(lines, UserConfigModel::fields()[k].name@),
        forall|k: int|
            0 <= k < UserConfigModel::fields().len() && last_value(
                lines,
                (#[trigger] UserConfigModel::fields()[k]).name@,
            ) is Some ==> usable(UserConfigModel::fields()[k], lines),
    ensures
        settings_read(values, lines),
{
    let f = UserConfigModel::fields();
    assert(f[0].name@ == "http_server"@ && text_of(values[0]) == last_value(lines, f[0].name@));
    assert(f[1].name@ == "ws_server"@ && text_of(values[1]) == last_value(lines, f[1].name@));
    assert(f[2].name@ == "token"@ && text_of(values[2]) == last_value(lines, f[2].name@));
    assert(f[3].kind == ValueKind::Switch && text_of(values[3]) == last_value(lines, f[3].name@));
    assert(f[4].kind == ValueKind::Switch && text_of(values[4]) == last_value(lines, f[4].name@));
    assert(f[5].kind == ValueKind::Real && text_of(values[5]) == last_value(lines, f[5].name@));
    assert(f[6].kind == ValueKind::U64 && text_of(values[6]) == last_value(lines, f[6].name@));
    assert(f[7].kind == ValueKind::Provider && text_of(values[7]) == last_value(
        lines,
        f[7].name@,
    ));
    assert(f[8].kind == ValueKind::Switch && text_of(values[8]) == last_value(lines, f[8].name@));
    assert(f[9].kind == ValueKind::Text && text_of(values[9]) == last_value(lines, f[9].name@));
    assert(f[10].kind == ValueKind::Switch && text_of(values[10]) == last_value(
        lines,
        f[10].name@,
    ));
    assert(f[11].kind == ValueKind::Switch && text_of(values[11]) == last_value(
        lines,
        f[11].name@,
    ));
    assert(f[12].kind == ValueKind::U32 && text_of(values[12]) == last_value(lines, f[12].name@));
    assert(f[13].kind == ValueKind::U8 && text_of(values[13]) == last_value(lines, f[13].name@));
    assert(f[14].kind == ValueKind::U64 && text_of(values[14]) == last_value(lines, f[14].name@));
    assert(f[15].kind == ValueKind::U64 && text_of(values[15]) == last_value(lines, f[15].name@));
    assert(f[16].kind == ValueKind::Mode && text_of(values[16]) == last_value(lines, f[16].name@));
    assert(f[17].kind == ValueKind::Level && text_of(values[17]) == last_value(
        lines,
        f[17].name@,
    ));
}

fn assemble(values: &Vec<Option<&[char]>>, shell: &str, Ghost(lines): Ghost<Seq<Seq<char>>>) -> (r:
    UserConfig)
    requires
        settings_read(values@, lines),
    ensures
        r@ == UserConfigModel::assembled(lines, shell@),
{
    proof {
        reveal_strlit("");
        assert(""@ =~= Seq::<char>::empty());
    }
    let ws_server = match values[1] {
        Some(value) => if value.len() == 0 {
            None
        } else {
            Some(to_text(value))
        },
        None => None,
    };
    let day: u64 = unsigned_at_or(values, 13, 255, 1);
    let reset_day: u8 = if day < 1 {
        1
    } else if day > 31 {
        31
    } else {
        day as u8
    };
    let terminal_entry = match values[9] {
        Some(value) => if equals(value, "default") {
            String::from_str(shell)
        } else {
            to_text(value)
        },
        None => String::from_str(shell),
    };
    let ip_provider = match values[7] {
        Some(value) => match IpProvider::from_chars(value) {
            Some(provider) => provider,
            None => unreached(),
        },
        None => IpProvider::Ipinfo,
    };
    let traffic_mode = match values[16] {
        Some(value) => match TrafficMode::from_chars(value) {
            Some(mode) => mode,
            None => unreached(),
        },
        None => TrafficMode::Both,
    };
    let log_level = match values[17] {
        Some(value) => match LogLevel::from_chars(value) {
            Some(level) => level,
            None => unreached(),
        },
        None => LogLevel::Info,
    };
    UserConfig {
        http_server: text_at_or(values, 0, ""),
        ws_server,
        token: text_at_or(values, 2, ""),
        tls: switch_at_or(values, 3, false),
        ignore_unsafe_cert: switch_at_or(values, 4, false),
        fake: text_at_or(values, 5, "1"),
        realtime_info_interval: unsigned_at_or(values, 6, u64::MAX, 1000),
        ip_provider,
        terminal: switch_at_or(values, 8, false),
        terminal_entry,
        disable_toast_notify: switch_at_or(values, 10, false),
        disable_network_statistics: switch_at_or(values, 11, false),
        network_interval: unsigned_at_or(values, 12, 4294967295, 10) as u32,
        reset_day,
        calibration_tx: unsigned_at_or(values, 14, u64::MAX, 0),
        calibration_rx: unsigned_at_or(values, 15, u64::MAX, 0),
        traffic_mode,
        log_level,
    }
}

} // verus!
