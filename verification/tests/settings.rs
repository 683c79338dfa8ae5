use komari_monitor_rs::config::{
    default_terminal_entry, parse_bool, parse_u32, parse_u64, parse_u8, ConfigPath,
    ConfigReader, Host,
    IpProvider, LogLevel, TrafficMode, UserConfig,
};

#[test]
fn ip_provider_names_are_read_in_any_case() {
    assert_eq!(IpProvider::from_str("cloudflare"), Ok(IpProvider::Cloudflare));
    assert_eq!(IpProvider::from_str("IPINFO"), Ok(IpProvider::Ipinfo));
    assert_eq!(IpProvider::from_str("IpInfo"), Ok(IpProvider::Ipinfo));
    assert_eq!(
        IpProvider::from_str("ip-info"),
        Err("Invalid ip_provider value: ip-info".to_string())
    );
    assert_eq!(
        IpProvider::from_str(" cloudflare"),
        Err("Invalid ip_provider value:  cloudflare".to_string())
    );
    assert_eq!(IpProvider::from_str(""), Err("Invalid ip_provider value: ".to_string()));
}

#[test]
fn ip_provider_names_are_written_in_small_letters() {
    assert_eq!(IpProvider::Cloudflare.to_string(), "cloudflare");
    assert_eq!(IpProvider::Ipinfo.to_string(), "ipinfo");
}

#[test]
fn log_level_names_are_read_in_any_case() {
    assert_eq!(LogLevel::from_str("error"), Ok(LogLevel::Error));
    assert_eq!(LogLevel::from_str("Warn"), Ok(LogLevel::Warn));
    assert_eq!(LogLevel::from_str("INFO"), Ok(LogLevel::Info));
    assert_eq!(LogLevel::from_str("debug"), Ok(LogLevel::Debug));
    assert_eq!(LogLevel::from_str("tRaCe"), Ok(LogLevel::Trace));
    assert_eq!(
        LogLevel::from_str("warning"),
        Err("Invalid log_level value: warning".to_string())
    );
}

#[test]
fn log_level_names_are_written_in_small_letters() {
    assert_eq!(LogLevel::Error.to_string(), "error");
    assert_eq!(LogLevel::Warn.to_string(), "warn");
    assert_eq!(LogLevel::Info.to_string(), "info");
    assert_eq!(LogLevel::Debug.to_string(), "debug");
    assert_eq!(LogLevel::Trace.to_string(), "trace");
}

#[test]
fn traffic_mode_names_are_read_in_any_case() {
    assert_eq!(TrafficMode::from_str("both"), Ok(TrafficMode::Both));
    assert_eq!(TrafficMode::from_str("TX_ONLY"), Ok(TrafficMode::TxOnly));
    assert_eq!(TrafficMode::from_str("Rx_Only"), Ok(TrafficMode::RxOnly));
    assert_eq!(
        TrafficMode::from_str("tx-only"),
        Err("Invalid traffic_mode value: tx-only".to_string())
    );
    assert_eq!(
        TrafficMode::from_str("TX_ONLYX"),
        Err("Invalid traffic_mode value: TX_ONLYX".to_string())
    );
}

#[test]
fn traffic_mode_names_are_written_in_small_letters() {
    assert_eq!(TrafficMode::Both.to_string(), "both");
    assert_eq!(TrafficMode::TxOnly.to_string(), "tx_only");
    assert_eq!(TrafficMode::RxOnly.to_string(), "rx_only");
}

#[test]
fn names_that_were_written_are_read_back() {
    for provider in [IpProvider::Cloudflare, IpProvider::Ipinfo] {
        assert_eq!(IpProvider::from_str(&provider.to_string()), Ok(provider));
    }
    for level in [
        LogLevel::Error,
        LogLevel::Warn,
        LogLevel::Info,
        LogLevel::Debug,
        LogLevel::Trace,
    ] {
        assert_eq!(LogLevel::from_str(&level.to_string()), Ok(level));
    }
    for mode in [TrafficMode::Both, TrafficMode::TxOnly, TrafficMode::RxOnly] {
        assert_eq!(TrafficMode::from_str(&mode.to_string()), Ok(mode));
    }
}

#[test]
fn switches_are_read_from_six_words() {
    for word in ["true", "1", "yes", "TRUE", "Yes", "yEs"] {
        assert_eq!(parse_bool(word, "tls"), Ok(true));
    }
    for word in ["false", "0", "no", "FALSE", "No", "nO"] {
        assert_eq!(parse_bool(word, "tls"), Ok(false));
    }
    assert_eq!(
        parse_bool("on", "tls"),
        Err("Invalid boolean value for tls: on".to_string())
    );
    assert_eq!(
        parse_bool("", "terminal"),
        Err("Invalid boolean value for terminal: ".to_string())
    );
    assert_eq!(
        parse_bool(" true", "tls"),
        Err("Invalid boolean value for tls:  true".to_string())
    );
}

#[test]
fn numbers_are_read_within_their_range() {
    assert_eq!(parse_u8("0", "reset_day"), Ok(0));
    assert_eq!(parse_u8("255", "reset_day"), Ok(255));
    assert_eq!(parse_u8("+31", "reset_day"), Ok(31));
    assert_eq!(
        parse_u8("256", "reset_day"),
        Err("Invalid u8 value for reset_day: 256".to_string())
    );
    assert_eq!(parse_u32("4294967295", "network_interval"), Ok(4294967295));
    assert_eq!(
        parse_u32("4294967296", "network_interval"),
        Err("Invalid u32 value for network_interval: 4294967296".to_string())
    );
    assert_eq!(parse_u64("18446744073709551615", "calibration_tx"), Ok(u64::MAX));
    assert_eq!(parse_u64("000000000000000000000000012", "calibration_tx"), Ok(12));
    assert_eq!(
        parse_u64("18446744073709551616", "calibration_tx"),
        Err("Invalid u64 value for calibration_tx: 18446744073709551616".to_string())
    );
    assert_eq!(
        parse_u64("99999999999999999999999999", "calibration_tx"),
        Err("Invalid u64 value for calibration_tx: 99999999999999999999999999".to_string())
    );
}

#[test]
fn numbers_are_rejected_where_they_are_not_plain_digits() {
    for text in ["", "+", "-", "-1", "1 ", " 1", "1_000", "0x10", "1.0", "١٢", "+-1", "++1"] {
        assert_eq!(
            parse_u64(text, "k"),
            Err(format!("Invalid u64 value for k: {}", text))
        );
    }
}

fn user_host(home: Option<&str>) -> Host {
    Host { windows: false, root: false, home: home.map(|h| h.to_string()) }
}

#[test]
fn settings_file_is_where_it_was_asked_for() {
    let host = Host { windows: true, root: true, home: None };
    assert_eq!(
        ConfigPath::user_config(Some("/tmp/agent.conf"), &host),
        Ok("/tmp/agent.conf".to_string())
    );
    assert_eq!(ConfigPath::user_config(Some(""), &host), Ok(String::new()));
}

#[test]
fn settings_file_has_its_usual_place_on_each_host() {
    let windows = Host { windows: true, root: false, home: Some("/home/u".to_string()) };
    assert_eq!(
        ConfigPath::user_config(None, &windows),
        Ok("C:\\komari-agent.conf".to_string())
    );
    let root = Host { windows: false, root: true, home: Some("/root".to_string()) };
    assert_eq!(
        ConfigPath::user_config(None, &root),
        Ok("/etc/komari-agent.conf".to_string())
    );
    assert_eq!(
        ConfigPath::user_config(None, &user_host(Some("/home/u"))),
        Ok("/home/u/.config/komari-agent.conf".to_string())
    );
    assert_eq!(
        ConfigPath::user_config(None, &user_host(Some("/home/u/"))),
        Ok("/home/u/.config/komari-agent.conf".to_string())
    );
    assert_eq!(
        ConfigPath::user_config(None, &user_host(Some(""))),
        Ok(".config/komari-agent.conf".to_string())
    );
    assert_eq!(
        ConfigPath::user_config(None, &user_host(None)),
        Err("Failed to get HOME environment variable".to_string())
    );
}

#[test]
fn runtime_data_file_has_its_usual_place_on_each_host() {
    let windows = Host { windows: true, root: false, home: None };
    assert_eq!(
        ConfigPath::runtime_data(&windows),
        Ok("C:\\ProgramData\\komari-monitor\\network-data.conf".to_string())
    );
    let root = Host { windows: false, root: true, home: None };
    assert_eq!(
        ConfigPath::runtime_data(&root),
        Ok("/var/lib/komari-monitor/network-data.conf".to_string())
    );
    assert_eq!(
        ConfigPath::runtime_data(&user_host(Some("/home/u"))),
        Ok("/home/u/.local/share/komari-monitor/network-data.conf".to_string())
    );
    assert_eq!(
        ConfigPath::runtime_data(&user_host(None)),
        Err("Failed to get HOME environment variable".to_string())
    );
}

#[test]
fn default_terminal_depends_on_the_host() {
    assert_eq!(default_terminal_entry(true, true), "cmd.exe");
    assert_eq!(default_terminal_entry(true, false), "cmd.exe");
    assert_eq!(default_terminal_entry(false, true), "bash");
    assert_eq!(default_terminal_entry(false, false), "sh");
}

fn minimal() -> UserConfig {
    UserConfig {
        http_server: "https://example.com".to_string(),
        ws_server: None,
        token: "abc123".to_string(),
        tls: false,
        ignore_unsafe_cert: false,
        fake: "1".to_string(),
        realtime_info_interval: 1000,
        ip_provider: IpProvider::Ipinfo,
        terminal: false,
        terminal_entry: "bash".to_string(),
        disable_toast_notify: false,
        disable_network_statistics: false,
        network_interval: 10,
        reset_day: 1,
        calibration_tx: 0,
        calibration_rx: 0,
        traffic_mode: TrafficMode::Both,
        log_level: LogLevel::Info,
    }
}

#[test]
fn settings_default_to_their_initial_values() {
    let config = UserConfig::default();
    assert_eq!(config.http_server, "");
    assert_eq!(config.ws_server, None);
    assert_eq!(config.token, "");
    assert!(!config.tls);
    assert!(!config.ignore_unsafe_cert);
    assert_eq!(config.fake, "1");
    assert_eq!(config.realtime_info_interval, 1000);
    assert_eq!(config.ip_provider, IpProvider::Ipinfo);
    assert!(!config.terminal);
    assert_eq!(config.terminal_entry, "default");
    assert!(!config.disable_toast_notify);
    assert!(!config.disable_network_statistics);
    assert_eq!(config.network_interval, 10);
    assert_eq!(config.reset_day, 1);
    assert_eq!(config.calibration_tx, 0);
    assert_eq!(config.calibration_rx, 0);
    assert_eq!(config.traffic_mode, TrafficMode::Both);
    assert_eq!(config.log_level, LogLevel::Info);
}

#[test]
fn settings_with_server_and_token_alone_keep_the_initial_values() {
    let text = "http_server=https://example.com\ntoken=abc123\n";
    assert_eq!(UserConfig::decode(text, "bash"), Ok(minimal()));
}

#[test]
fn settings_are_read_key_by_key() {
    let text = "# Agent\nhttp_server = https://example.com\nws_server=wss://example.com/ws\ntoken=abc123\ntls=yes\nignore_unsafe_cert=1\nfake=2.5e0\nrealtime_info_interval=2000\nip_provider=Cloudflare\nterminal=TRUE\nterminal_entry=zsh\ndisable_toast_notify=no\ndisable_network_statistics=0\nnetwork_interval=30\nreset_day=15\ncalibration_tx=500\ncalibration_rx=600\ntraffic_mode=TX_ONLY\nlog_level=Debug\n";
    assert_eq!(
        UserConfig::decode(text, "bash"),
        Ok(UserConfig {
            http_server: "https://example.com".to_string(),
            ws_server: Some("wss://example.com/ws".to_string()),
            token: "abc123".to_string(),
            tls: true,
            ignore_unsafe_cert: true,
            fake: "2.5e0".to_string(),
            realtime_info_interval: 2000,
            ip_provider: IpProvider::Cloudflare,
            terminal: true,
            terminal_entry: "zsh".to_string(),
            disable_toast_notify: false,
            disable_network_statistics: false,
            network_interval: 30,
            reset_day: 15,
            calibration_tx: 500,
            calibration_rx: 600,
            traffic_mode: TrafficMode::TxOnly,
            log_level: LogLevel::Debug,
        })
    );
}

#[test]
fn settings_take_an_empty_ws_server_as_none() {
    let text = "http_server=h\ntoken=t\nws_server=wss://x\nws_server=\n";
    let config = UserConfig::decode(text, "sh").unwrap();
    assert_eq!(config.ws_server, None);
}

#[test]
fn settings_bring_the_reset_day_into_the_month() {
    let low = UserConfig::decode("http_server=h\ntoken=t\nreset_day=0\n", "sh").unwrap();
    assert_eq!(low.reset_day, 1);
    let high = UserConfig::decode("http_server=h\ntoken=t\nreset_day=200\n", "sh").unwrap();
    assert_eq!(high.reset_day, 31);
    let kept = UserConfig::decode("http_server=h\ntoken=t\nreset_day=31\n", "sh").unwrap();
    assert_eq!(kept.reset_day, 31);
}

#[test]
fn settings_replace_the_default_terminal_entry() {
    let named = UserConfig::decode("http_server=h\ntoken=t\nterminal_entry=default\n", "cmd.exe");
    assert_eq!(named.unwrap().terminal_entry, "cmd.exe");
    let unset = UserConfig::decode("http_server=h\ntoken=t\n", "sh");
    assert_eq!(unset.unwrap().terminal_entry, "sh");
    let other = UserConfig::decode("http_server=h\ntoken=t\nterminal_entry=Default\n", "sh");
    assert_eq!(other.unwrap().terminal_entry, "Default");
}

#[test]
fn settings_need_a_server_and_a_token() {
    assert_eq!(
        UserConfig::decode("token=t\n", "sh"),
        Err("Missing required parameter: http_server".to_string())
    );
    assert_eq!(
        UserConfig::decode("http_server=h\n", "sh"),
        Err("Missing required parameter: token".to_string())
    );
    assert_eq!(
        UserConfig::decode("http_server=\ntoken=t\n", "sh"),
        Err("Missing required parameter: http_server".to_string())
    );
    assert_eq!(
        UserConfig::decode("", "sh"),
        Err("Missing required parameter: http_server".to_string())
    );
}

#[test]
fn settings_reject_unknown_keys_and_broken_lines() {
    assert_eq!(
        UserConfig::decode("http_server=h\ntoken=t\n\ncolour=blue\n", "sh"),
        Err("Unknown configuration key at line 4: colour".to_string())
    );
    assert_eq!(
        UserConfig::decode("http_server=h\ntoken\n", "sh"),
        Err("Invalid line 2 (expected key=value format): token".to_string())
    );
}

#[test]
fn settings_reject_values_of_the_wrong_kind() {
    let cases = [
        ("tls=maybe", "Invalid boolean value for tls: maybe"),
        ("fake=fast", "Invalid f64 value for fake: fast"),
        ("fake=", "Invalid f64 value for fake: "),
        ("fake=1e", "Invalid f64 value for fake: 1e"),
        ("fake=.", "Invalid f64 value for fake: ."),
        ("fake=1.2.3", "Invalid f64 value for fake: 1.2.3"),
        ("realtime_info_interval=-1", "Invalid u64 value for realtime_info_interval: -1"),
        ("ip_provider=google", "Invalid ip_provider value: google"),
        ("network_interval=4294967296", "Invalid u32 value for network_interval: 4294967296"),
        ("reset_day=256", "Invalid u8 value for reset_day: 256"),
        ("calibration_rx=1.5", "Invalid u64 value for calibration_rx: 1.5"),
        ("traffic_mode=none", "Invalid traffic_mode value: none"),
        ("log_level=loud", "Invalid log_level value: loud"),
    ];
    for (line, message) in cases {
        let text = format!("http_server=h\ntoken=t\n{}\n", line);
        assert_eq!(UserConfig::decode(&text, "sh"), Err(message.to_string()));
    }
}

#[test]
fn settings_take_real_numbers_in_every_notation() {
    for text in [
        "1", "1.0", "0.5", ".5", "5.", "+1.5", "-2", "1e3", "1E3", "1.5e-3", "2.e+7", "inf",
        "-inf", "+Infinity", "NaN", "nan", "007", "1e0005",
    ] {
        let content = format!("http_server=h\ntoken=t\nfake={}\n", text);
        let config = UserConfig::decode(&content, "sh").unwrap();
        assert_eq!(config.fake, text);
        assert!(text.parse::<f64>().is_ok());
    }
    for text in [
        "", ".", "+", "-", "e5", "1e", "1e+", "1.2.3", "1 0", "1,5", "in", "infinit", "nane",
        "0x10", "1e5.5", "--1", "1_0", "+.e1", ".e1",
    ] {
        let content = format!("http_server=h\ntoken=t\nfake={}\n", text);
        assert_eq!(
            UserConfig::decode(&content, "sh"),
            Err(format!("Invalid f64 value for fake: {}", text))
        );
        assert!(text.parse::<f64>().is_err());
    }
}

#[test]
fn settings_are_written_with_their_headings() {
    let expected = "# Komari Monitor Agent Configuration\n\n# ==================== Main Server Configuration ====================\nhttp_server=https://example.com\nws_server=\ntoken=abc123\n\n# ==================== TLS Configuration ====================\ntls=false\nignore_unsafe_cert=false\n\n# ==================== Performance Configuration ====================\nfake=1\nrealtime_info_interval=1000\n\n# ==================== Feature Configuration ====================\nip_provider=ipinfo\nterminal=false\nterminal_entry=bash\ndisable_toast_notify=false\n\n# ==================== Network Statistics Configuration ====================\ndisable_network_statistics=false\nnetwork_interval=10\nreset_day=1\ncalibration_tx=0\ncalibration_rx=0\ntraffic_mode=both\n\n# ==================== Logging Configuration ====================\nlog_level=info";
    assert_eq!(minimal().encode(), expected);
}

#[test]
fn settings_that_were_written_are_read_back() {
    let config = UserConfig {
        http_server: "https://example.com".to_string(),
        ws_server: Some("wss://example.com/ws".to_string()),
        token: "abc123".to_string(),
        tls: true,
        ignore_unsafe_cert: true,
        fake: "2.5".to_string(),
        realtime_info_interval: 2000,
        ip_provider: IpProvider::Cloudflare,
        terminal: true,
        terminal_entry: "zsh".to_string(),
        disable_toast_notify: true,
        disable_network_statistics: true,
        network_interval: 30,
        reset_day: 15,
        calibration_tx: 500,
        calibration_rx: 600,
        traffic_mode: TrafficMode::RxOnly,
        log_level: LogLevel::Trace,
    };
    assert_eq!(UserConfig::decode(&config.encode(), "sh"), Ok(config));
    assert_eq!(UserConfig::decode(&minimal().encode(), "sh"), Ok(minimal()));
}

#[test]
fn settings_file_that_does_not_exist_is_named_in_the_message() {
    assert_eq!(
        ConfigReader::load_user_config("/etc/komari-agent.conf", None, "sh"),
        Err("Configuration file not found: /etc/komari-agent.conf\nPlease create the configuration file or run 'kagent.sh config' to configure.".to_string())
    );
    assert_eq!(
        ConfigReader::load_user_config("/etc/komari-agent.conf", Some("http_server=h\ntoken=t\n"), "sh")
            .map(|c| c.terminal_entry),
        Ok("sh".to_string())
    );
    assert_eq!(
        ConfigReader::load_user_config("/etc/komari-agent.conf", Some(""), "sh"),
        Err("Missing required parameter: http_server".to_string())
    );
}

fn characters_that_lowercase_may_turn_into_ascii() -> Vec<char> {
    let mut found = Vec::new();
    for code in 0..=0x10FFFFu32 {
        if let Some(c) = char::from_u32(code) {
            let lowered: String = c.to_lowercase().collect();
            if c.is_ascii() || lowered.chars().any(|l| l.is_ascii()) {
                found.push(c);
            }
        }
    }
    found
}

#[test]
fn names_are_read_as_lowercasing_would_read_them() {
    let candidates = characters_that_lowercase_may_turn_into_ascii();
    assert!(candidates.len() >= 128);
    let words = [
        "cloudflare", "ipinfo", "error", "warn", "info", "debug", "trace", "both", "tx_only",
        "rx_only", "true", "1", "yes", "false", "0", "no",
    ];
    for word in words {
        for place in 0..=word.len() {
            for &c in &candidates {
                let mut replaced: Vec<char> = word.chars().collect();
                let mut inserted = replaced.clone();
                if place < replaced.len() {
                    replaced[place] = c;
                }
                inserted.insert(place, c);
                for text in [replaced, inserted] {
                    let text: String = text.into_iter().collect();
                    let lowered = text.to_lowercase();
                    assert_eq!(
                        IpProvider::from_str(&text).is_ok(),
                        lowered == "cloudflare" || lowered == "ipinfo",
                        "{:?}",
                        text
                    );
                    assert_eq!(
                        LogLevel::from_str(&text).is_ok(),
                        ["error", "warn", "info", "debug", "trace"].contains(&lowered.as_str()),
                        "{:?}",
                        text
                    );
                    assert_eq!(
                        TrafficMode::from_str(&text).is_ok(),
                        ["both", "tx_only", "rx_only"].contains(&lowered.as_str()),
                        "{:?}",
                        text
                    );
                    assert_eq!(
                        parse_bool(&text, "k").ok(),
                        match lowered.as_str() {
                            "true" | "1" | "yes" => Some(true),
                            "false" | "0" | "no" => Some(false),
                            _ => None,
                        },
                        "{:?}",
                        text
                    );
                }
            }
        }
    }
}
