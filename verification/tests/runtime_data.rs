use komari_monitor_rs::config::{
    normalize_boot_token, ConfigReader, LoadOutcome, RuntimeData,
};

fn sample() -> RuntimeData {
    RuntimeData {
        boot_id: "abc".to_string(),
        boot_source_tx: 1,
        boot_source_rx: 2,
        current_boot_tx: 3,
        current_boot_rx: 4,
        accumulated_tx: 5,
        accumulated_rx: 6,
        last_reset_month: 7,
    }
}

const SAMPLE_TEXT: &str = "# Komari Monitor Runtime Data\n# This file is automatically managed by the program. Do not modify manually.\n\nboot_id=abc\nboot_source_tx=1\nboot_source_rx=2\ncurrent_boot_tx=3\ncurrent_boot_rx=4\naccumulated_tx=5\naccumulated_rx=6\nlast_reset_month=7";

#[test]
fn encode_writes_every_key_in_order() {
    assert_eq!(sample().encode(), SAMPLE_TEXT);
}

#[test]
fn decode_reads_the_written_text() {
    assert_eq!(RuntimeData::decode(SAMPLE_TEXT), Ok(sample()));
}

#[test]
fn decode_reads_back_what_encode_wrote() {
    let data = RuntimeData {
        boot_id: "9f0c-11 e4".to_string(),
        boot_source_tx: 18446744073709551615,
        boot_source_rx: 0,
        current_boot_tx: 42,
        current_boot_rx: 4,
        accumulated_tx: 1000000,
        accumulated_rx: 6,
        last_reset_month: 12,
    };
    assert_eq!(RuntimeData::decode(&data.encode()), Ok(data));
}

#[test]
fn decode_round_trips_the_default_state() {
    let data = RuntimeData::default();
    assert_eq!(data.boot_id, "");
    assert_eq!(data.last_reset_month, 1);
    assert_eq!(data.accumulated_tx, 0);
    assert_eq!(RuntimeData::decode(&data.encode()), Ok(data));
}

#[test]
fn decode_is_insensitive_to_the_order_of_keys() {
    let text = "last_reset_month=7\naccumulated_rx=6\naccumulated_tx=5\ncurrent_boot_rx=4\ncurrent_boot_tx=3\nboot_source_rx=2\nboot_source_tx=1\nboot_id=abc\n";
    assert_eq!(RuntimeData::decode(text), Ok(sample()));
}

#[test]
fn decode_passes_over_unknown_keys_comments_and_blank_lines() {
    let text = "# a comment\n\n   \nboot_id=abc\nfuture_key=whatever\nboot_source_tx=1\nboot_source_rx=2\n  # indented comment\ncurrent_boot_tx=3\ncurrent_boot_rx=4\naccumulated_tx=5\naccumulated_rx=6\nlast_reset_month=7\n";
    assert_eq!(RuntimeData::decode(text), Ok(sample()));
}

#[test]
fn decode_trims_keys_and_values_and_takes_carriage_returns() {
    let text = "  boot_id =  abc  \r\nboot_source_tx = 1\r\nboot_source_rx=2\r\ncurrent_boot_tx=3\r\ncurrent_boot_rx=4\r\naccumulated_tx=5\r\naccumulated_rx=6\r\n\tlast_reset_month\t=\t7\r\n";
    assert_eq!(RuntimeData::decode(text), Ok(sample()));
}

#[test]
fn decode_lets_the_last_entry_of_a_key_win() {
    let text = format!("{}\naccumulated_tx=99\nboot_id=later", SAMPLE_TEXT);
    let mut expected = sample();
    expected.accumulated_tx = 99;
    expected.boot_id = "later".to_string();
    assert_eq!(RuntimeData::decode(&text), Ok(expected));
}

#[test]
fn decode_splits_at_the_first_equals_sign() {
    let text = SAMPLE_TEXT.replace("boot_id=abc", "boot_id=a=b=c");
    let mut expected = sample();
    expected.boot_id = "a=b=c".to_string();
    assert_eq!(RuntimeData::decode(&text), Ok(expected));
}

#[test]
fn decode_takes_an_empty_boot_id() {
    let text = SAMPLE_TEXT.replace("boot_id=abc", "boot_id=");
    let mut expected = sample();
    expected.boot_id = String::new();
    assert_eq!(RuntimeData::decode(&text), Ok(expected));
}

#[test]
fn decode_takes_a_plus_sign_and_leading_zeros() {
    let text = SAMPLE_TEXT.replace("boot_source_tx=1", "boot_source_tx=+0001");
    assert_eq!(RuntimeData::decode(&text), Ok(sample()));
}

#[test]
fn decode_rejects_a_line_without_equals_sign() {
    let text = "boot_id=abc\n\nthis is not an entry\nboot_source_tx=1";
    assert_eq!(
        RuntimeData::decode(text),
        Err("Invalid line 3 (expected key=value format): this is not an entry".to_string())
    );
}

#[test]
fn decode_quotes_the_trimmed_line_in_the_message() {
    let text = "   broken line  \r\n";
    assert_eq!(
        RuntimeData::decode(text),
        Err("Invalid line 1 (expected key=value format): broken line".to_string())
    );
}

#[test]
fn decode_rejects_a_number_that_does_not_parse() {
    let text = SAMPLE_TEXT.replace("current_boot_rx=4", "current_boot_rx=four");
    assert_eq!(
        RuntimeData::decode(&text),
        Err("Invalid u64 value for current_boot_rx: four".to_string())
    );
}

#[test]
fn decode_rejects_a_negative_number() {
    let text = SAMPLE_TEXT.replace("accumulated_tx=5", "accumulated_tx=-5");
    assert_eq!(
        RuntimeData::decode(&text),
        Err("Invalid u64 value for accumulated_tx: -5".to_string())
    );
}

#[test]
fn decode_rejects_an_empty_number() {
    let text = SAMPLE_TEXT.replace("accumulated_tx=5", "accumulated_tx=");
    assert_eq!(
        RuntimeData::decode(&text),
        Err("Invalid u64 value for accumulated_tx: ".to_string())
    );
}

#[test]
fn decode_rejects_a_number_beyond_64_bits() {
    let text = SAMPLE_TEXT.replace("boot_source_tx=1", "boot_source_tx=18446744073709551616");
    assert_eq!(
        RuntimeData::decode(&text),
        Err("Invalid u64 value for boot_source_tx: 18446744073709551616".to_string())
    );
}

#[test]
fn decode_rejects_a_month_beyond_8_bits() {
    let text = SAMPLE_TEXT.replace("last_reset_month=7", "last_reset_month=256");
    assert_eq!(
        RuntimeData::decode(&text),
        Err("Invalid u8 value for last_reset_month: 256".to_string())
    );
    let text = SAMPLE_TEXT.replace("last_reset_month=7", "last_reset_month=255");
    let mut expected = sample();
    expected.last_reset_month = 255;
    assert_eq!(RuntimeData::decode(&text), Ok(expected));
}

#[test]
fn decode_reports_the_first_faulty_line_only() {
    let text = "boot_id=abc\nboot_source_tx=x\nnonsense\n";
    assert_eq!(
        RuntimeData::decode(text),
        Err("Invalid u64 value for boot_source_tx: x".to_string())
    );
    let text = "boot_id=abc\nnonsense\nboot_source_tx=x\n";
    assert_eq!(
        RuntimeData::decode(text),
        Err("Invalid line 2 (expected key=value format): nonsense".to_string())
    );
}

#[test]
fn decode_rejects_a_fault_even_where_a_later_entry_is_sound() {
    let text = format!("boot_source_tx=oops\n{}", SAMPLE_TEXT);
    assert_eq!(
        RuntimeData::decode(&text),
        Err("Invalid u64 value for boot_source_tx: oops".to_string())
    );
}

#[test]
fn decode_names_the_first_missing_key() {
    let without_boot_id = SAMPLE_TEXT.replace("boot_id=abc\n", "");
    assert_eq!(
        RuntimeData::decode(&without_boot_id),
        Err("Missing required parameter: boot_id".to_string())
    );
    let without_two = SAMPLE_TEXT
        .replace("current_boot_tx=3\n", "")
        .replace("accumulated_rx=6\n", "");
    assert_eq!(
        RuntimeData::decode(&without_two),
        Err("Missing required parameter: current_boot_tx".to_string())
    );
    let without_month = SAMPLE_TEXT.replace("\nlast_reset_month=7", "");
    assert_eq!(
        RuntimeData::decode(&without_month),
        Err("Missing required parameter: last_reset_month".to_string())
    );
    assert_eq!(
        RuntimeData::decode(""),
        Err("Missing required parameter: boot_id".to_string())
    );
}

#[test]
fn fresh_state_counts_nothing() {
    let data = RuntimeData::fresh("boot-1", 9);
    assert_eq!(
        data,
        RuntimeData {
            boot_id: "boot-1".to_string(),
            boot_source_tx: 0,
            boot_source_rx: 0,
            current_boot_tx: 0,
            current_boot_rx: 0,
            accumulated_tx: 0,
            accumulated_rx: 0,
            last_reset_month: 9,
        }
    );
}

#[test]
fn boot_token_is_kept_without_the_whitespace_around_it() {
    assert_eq!(
        normalize_boot_token("  6f1c2d9e-0b1a-4c3d-9e8f-7a6b5c4d3e2f\n"),
        "6f1c2d9e-0b1a-4c3d-9e8f-7a6b5c4d3e2f"
    );
    assert_eq!(normalize_boot_token("\u{a0}\u{3000}x y\u{2003}\t"), "x y");
    assert_eq!(normalize_boot_token(" \r\n"), "");
    assert_eq!(normalize_boot_token(""), "");
}

#[test]
fn load_treats_a_missing_or_empty_file_as_a_first_run() {
    assert_eq!(ConfigReader::load_runtime_data(None), LoadOutcome::Absent);
    assert_eq!(ConfigReader::load_runtime_data(Some("")), LoadOutcome::Absent);
}

#[test]
fn load_gives_the_state_that_the_file_holds() {
    assert_eq!(
        ConfigReader::load_runtime_data(Some(SAMPLE_TEXT)),
        LoadOutcome::Loaded(sample())
    );
}

#[test]
fn load_calls_a_file_without_boot_id_corrupt() {
    let text = SAMPLE_TEXT.replace("boot_id=abc\n", "");
    assert_eq!(
        ConfigReader::load_runtime_data(Some(&text)),
        LoadOutcome::Corrupt("Missing required parameter: boot_id".to_string())
    );
}

#[test]
fn load_calls_a_file_of_blanks_corrupt() {
    assert_eq!(
        ConfigReader::load_runtime_data(Some("\n")),
        LoadOutcome::Corrupt("Missing required parameter: boot_id".to_string())
    );
}
