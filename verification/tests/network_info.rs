use komari_monitor_rs::network_info::{NetworkConfig, NetworkInfo};

fn record(config_path: Option<&str>) -> NetworkInfo {
    NetworkInfo {
        config: NetworkConfig {
            disable_network_statistics: false,
            network_reset_day: 5,
            network_interval: 10,
            network_interval_number: 10,
            network_calibration_tx: -500,
            network_calibration_rx: 600,
            network_save_path: "/var/lib/agent/network.conf".to_string(),
            config_path: config_path.map(|p| p.to_string()),
        },
        boot_id: "6f1c2d9e".to_string(),
        source_tx: 100,
        source_rx: 200,
        latest_tx: 30,
        latest_rx: 40,
        last_reset_month: "2024-03".to_string(),
    }
}

const RECORD_TEXT: &str = "disable_network_statistics=false\nnetwork_reset_day=5\nnetwork_interval=10\nnetwork_interval_number=10\nnetwork_calibration_tx=-500\nnetwork_calibration_rx=600\nnetwork_save_path=/var/lib/agent/network.conf\nboot_id=6f1c2d9e\nsource_tx=100\nsource_rx=200\nlatest_tx=30\nlatest_rx=40\nlast_reset_month=2024-03\n";

#[test]
fn record_is_written_line_by_line() {
    assert_eq!(record(None).encode(), RECORD_TEXT);
}

#[test]
fn record_is_written_with_the_settings_path_where_there_is_one() {
    let expected = RECORD_TEXT.replace(
        "boot_id=",
        "config_path=/etc/agent.conf\nboot_id=",
    );
    assert_eq!(record(Some("/etc/agent.conf")).encode(), expected);
}

#[test]
fn record_is_read_from_its_text() {
    assert_eq!(NetworkInfo::decode(RECORD_TEXT), Ok(record(None)));
}

#[test]
fn record_that_was_written_is_read_back() {
    for path in [None, Some("/etc/agent.conf"), Some("")] {
        let written = record(path);
        assert_eq!(NetworkInfo::decode(&written.encode()), Ok(written));
    }
    let mut extreme = record(None);
    extreme.config.disable_network_statistics = true;
    extreme.config.network_reset_day = u32::MAX;
    extreme.config.network_calibration_tx = i64::MIN;
    extreme.config.network_calibration_rx = i64::MAX;
    extreme.source_tx = u64::MAX;
    extreme.boot_id = String::new();
    assert!(extreme.encode().contains("network_calibration_tx=-9223372036854775808\n"));
    assert!(extreme.encode().contains("network_calibration_rx=9223372036854775807\n"));
    assert_eq!(NetworkInfo::decode(&extreme.encode()), Ok(extreme));
}

#[test]
fn record_passes_over_unknown_keys_and_comments() {
    let text = format!("# header\n\nsomething_new=1\n{}", RECORD_TEXT);
    assert_eq!(NetworkInfo::decode(&text), Ok(record(None)));
}

#[test]
fn record_rejects_a_line_without_equals_sign() {
    let text = format!("# header\nbroken\n{}", RECORD_TEXT);
    assert_eq!(
        NetworkInfo::decode(&text),
        Err("Line 2: Format error (expected key=value)".to_string())
    );
}

#[test]
fn record_rejects_values_of_the_wrong_kind() {
    let cases = [
        ("disable_network_statistics=false", "disable_network_statistics=no", "Line 1: Invalid bool for key 'disable_network_statistics'"),
        ("disable_network_statistics=false", "disable_network_statistics=TRUE", "Line 1: Invalid bool for key 'disable_network_statistics'"),
        ("network_reset_day=5", "network_reset_day=five", "Line 2: Invalid u32 for key 'network_reset_day'"),
        ("network_interval=10", "network_interval=4294967296", "Line 3: Invalid u32 for key 'network_interval'"),
        ("network_interval_number=10", "network_interval_number=-1", "Line 4: Invalid u32 for key 'network_interval_number'"),
        ("network_calibration_tx=-500", "network_calibration_tx=--500", "Line 5: Invalid i64 for key 'network_calibration_tx'"),
        ("network_calibration_rx=600", "network_calibration_rx=9223372036854775808", "Line 6: Invalid i64 for key 'network_calibration_rx'"),
        ("source_tx=100", "source_tx=1e3", "Line 9: Invalid u64 for key 'source_tx'"),
        ("latest_rx=40", "latest_rx=", "Line 12: Invalid u64 for key 'latest_rx'"),
    ];
    for (from, to, message) in cases {
        let text = RECORD_TEXT.replace(from, to);
        assert_eq!(NetworkInfo::decode(&text), Err(message.to_string()));
    }
}

#[test]
fn record_takes_signed_calibrations() {
    let text = RECORD_TEXT
        .replace("network_calibration_tx=-500", "network_calibration_tx=-9223372036854775808")
        .replace("network_calibration_rx=600", "network_calibration_rx=+600");
    let mut expected = record(None);
    expected.config.network_calibration_tx = i64::MIN;
    assert_eq!(NetworkInfo::decode(&text), Ok(expected));
    let zero = RECORD_TEXT.replace("network_calibration_tx=-500", "network_calibration_tx=-0");
    let mut expected = record(None);
    expected.config.network_calibration_tx = 0;
    assert_eq!(NetworkInfo::decode(&zero), Ok(expected));
    let below = RECORD_TEXT
        .replace("network_calibration_tx=-500", "network_calibration_tx=-9223372036854775809");
    assert_eq!(
        NetworkInfo::decode(&below),
        Err("Line 5: Invalid i64 for key 'network_calibration_tx'".to_string())
    );
}

#[test]
fn record_names_the_first_missing_key() {
    let keys = [
        "disable_network_statistics",
        "network_reset_day",
        "network_interval",
        "network_interval_number",
        "network_calibration_tx",
        "network_calibration_rx",
        "network_save_path",
        "boot_id",
        "source_tx",
        "source_rx",
        "latest_tx",
        "latest_rx",
        "last_reset_month",
    ];
    for key in keys {
        let text: String = RECORD_TEXT
            .lines()
            .filter(|line| !line.starts_with(&format!("{}=", key)))
            .map(|line| format!("{}\n", line))
            .collect();
        assert_eq!(NetworkInfo::decode(&text), Err(format!("Missing field: {}", key)));
    }
    assert_eq!(
        NetworkInfo::decode(""),
        Err("Missing field: disable_network_statistics".to_string())
    );
}

#[test]
fn settings_file_is_read_leniently() {
    let text = "# settings\nnot an entry\ndisable_network_statistics=true\nnetwork_reset_day=7\nnetwork_interval=15\nnetwork_interval_number=4\nnetwork_calibration_tx=-3\nnetwork_calibration_rx=9\nnetwork_save_path=/ignored\nunknown=1\n";
    assert_eq!(
        NetworkConfig::parse(text),
        Ok(NetworkConfig {
            disable_network_statistics: true,
            network_reset_day: 7,
            network_interval: 15,
            network_interval_number: 4,
            network_calibration_tx: -3,
            network_calibration_rx: 9,
            network_save_path: String::new(),
            config_path: None,
        })
    );
}

#[test]
fn settings_file_names_the_first_key_without_a_usable_value() {
    let full = "disable_network_statistics=true\nnetwork_reset_day=7\nnetwork_interval=15\nnetwork_interval_number=4\nnetwork_calibration_tx=-3\nnetwork_calibration_rx=9\n";
    assert_eq!(
        NetworkConfig::parse(""),
        Err("Missing disable_network_statistics in config".to_string())
    );
    assert_eq!(
        NetworkConfig::parse(&full.replace("network_interval=15\n", "")),
        Err("Missing network_interval in config".to_string())
    );
    assert_eq!(
        NetworkConfig::parse(&full.replace("network_reset_day=7", "network_reset_day=seven")),
        Err("Missing network_reset_day in config".to_string())
    );
    assert_eq!(
        NetworkConfig::parse(&format!("{}network_calibration_rx=oops\n", full)),
        Err("Missing network_calibration_rx in config".to_string())
    );
    assert_eq!(
        NetworkConfig::parse(&format!("network_calibration_rx=oops\n{}", full)).map(|c| c.network_calibration_rx),
        Ok(9)
    );
    assert_eq!(
        NetworkConfig::parse(&full.replace("disable_network_statistics=true", "disable_network_statistics=yes")),
        Err("Missing disable_network_statistics in config".to_string())
    );
}
