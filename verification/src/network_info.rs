//! The traffic record that carries, beside the counters, the settings
//! under which it was taken, and the settings file that goes with it.

use vstd::prelude::*;
use vstd::string::StringExecFns;
use crate::keyvalue::{
    accepts,
    all_blank,
    classify,
    entries_proper,
    entry,
    flag_at,
    is_key,
    is_value,
    join_lines,
    kind_of,
    last_value,
    lemma_absent_value,
    lemma_entry_value,
    lemma_kind_of_field,
    lemma_no_fault,
    lemma_nothing_missing,
    lines_of,
    names_distinct,
    read_values,
    reading_error,
    rendered,
    signed_at,
    text_at,
    texts,
    unsigned_at,
    usable,
    Field,
    Rules,
    Style,
    ValueKind,
};
use crate::number::{
    decimal,
    decimal_text,
    lemma_parse_signed_decimal,
    lemma_parse_unsigned_decimal,
    parse_signed,
    parse_unsigned,
    signed_decimal,
    signed_decimal_text,
};
use crate::text::{join, lemma_split_join, to_chars};

verus! {

/// The settings of the traffic statistics.
#[derive(Debug, Clone, PartialEq)]
pub struct NetworkConfig {
    pub disable_network_statistics: bool,
    pub network_reset_day: u32,
    pub network_interval: u32,
    pub network_interval_number: u32,
    pub network_calibration_tx: i64,
    pub network_calibration_rx: i64,
    pub network_save_path: String,
    pub config_path: Option<String>,
}

/// What a `NetworkConfig` holds, as plain values.
pub struct NetworkConfigModel {
    pub disable_network_statistics: bool,
    pub network_reset_day: u32,
    pub network_interval: u32,
    pub network_interval_number: u32,
    pub network_calibration_tx: i64,
    pub network_calibration_rx: i64,
    pub network_save_path: Seq<char>,
    pub config_path: Option<Seq<char>>,
}

impl View for NetworkConfig {
    type V = NetworkConfigModel;

    open spec fn view(&self) -> NetworkConfigModel {
        NetworkConfigModel {
            disable_network_statistics: self.disable_network_statistics,
            network_reset_day: self.network_reset_day,
            network_interval: self.network_interval,
            network_interval_number: self.network_interval_number,
            network_calibration_tx: self.network_calibration_tx,
            network_calibration_rx: self.network_calibration_rx,
            network_save_path: self.network_save_path@,
            config_path: match self.config_path {
                Some(path) => Some(path@),
                None => None,
            },
        }
    }
}

/// The record: the settings, the boot under which it was written, the
/// traffic carried over (`source_*`), the traffic of the current boot
/// (`latest_*`) and the month of the last reset, written as year and month.
#[derive(Debug, Clone, PartialEq)]
pub struct NetworkInfo {
    pub config: NetworkConfig,
    pub boot_id: String,
    pub source_tx: u64,
    pub source_rx: u64,
    pub latest_tx: u64,
    pub latest_rx: u64,
    pub last_reset_month: String,
}

/// What a `NetworkInfo` holds, as plain values.
pub struct NetworkInfoModel {
    pub config: NetworkConfigModel,
    pub boot_id: Seq<char>,
    pub source_tx: u64,
    pub source_rx: u64,
    pub latest_tx: u64,
    pub latest_rx: u64,
    pub last_reset_month: Seq<char>,
}

impl View for NetworkInfo {
    type V = NetworkInfoModel;

    open spec fn view(&self) -> NetworkInfoModel {
        NetworkInfoModel {
            config: self.config@,
            boot_id: self.boot_id@,
            source_tx: self.source_tx,
            source_rx: self.source_rx,
            latest_tx: self.latest_tx,
            latest_rx: self.latest_rx,
            last_reset_month: self.last_reset_month@,
        }
    }
}

/// How a flag is written.
pub open spec fn flag_text(on: bool) -> Seq<char> {
    if on {
        "true"@
    } else {
        "false"@
    }
}

/// The unsigned number that the lines give under `key`.
pub open spec fn unsigned_in(lines: Seq<Seq<char>>, key: Seq<char>, max: nat) -> nat {
    parse_unsigned(last_value(lines, key)->0, max)->0
}

/// The signed number that the lines give under `key`.
pub open spec fn signed_in(lines: Seq<Seq<char>>, key: Seq<char>) -> int {
    parse_signed(last_value(lines, key)->0, i64::MIN as int, i64::MAX as int)->0
}

impl NetworkConfigModel {
    /// The entries that carry the settings, in the order in which they are
    /// written. The path of the settings file has an entry only where
    /// there is such a path.
    pub open spec fn entries(self) -> Seq<(Seq<char>, Seq<char>)> {
        seq![
            ("disable_network_statistics"@, flag_text(self.disable_network_statistics)),
            ("network_reset_day"@, decimal(self.network_reset_day as nat)),
            ("network_interval"@, decimal(self.network_interval as nat)),
            ("network_interval_number"@, decimal(self.network_interval_number as nat)),
            ("network_calibration_tx"@, signed_decimal(self.network_calibration_tx as int)),
            ("network_calibration_rx"@, signed_decimal(self.network_calibration_rx as int)),
            ("network_save_path"@, self.network_save_path),
        ] + match self.config_path {
            Some(path) => seq![("config_path"@, path)],
            None => seq![],
        }
    }

    /// The keys of a settings file. All of them are required.
    pub open spec fn fields() -> Seq<Field> {
        seq![
            Field { name: "disable_network_statistics", kind: ValueKind::Flag, required: true },
            Field { name: "network_reset_day", kind: ValueKind::U32, required: true },
            Field { name: "network_interval", kind: ValueKind::U32, required: true },
            Field { name: "network_interval_number", kind: ValueKind::U32, required: true },
            Field { name: "network_calibration_tx", kind: ValueKind::I64, required: true },
            Field { name: "network_calibration_rx", kind: ValueKind::I64, required: true },
        ]
    }

    /// In a settings file no line is a fault: what cannot be read is
    /// passed over, and a key is missing where its last value is not of
    /// its kind.
    pub open spec fn rules() -> Rules {
        Rules { style: Style::Terse, strict: false, closed: false }
    }

    /// The settings that the lines describe, with no paths.
    pub open spec fn assembled(lines: Seq<Seq<char>>) -> NetworkConfigModel {
        NetworkConfigModel {
            disable_network_statistics: last_value(lines, "disable_network_statistics"@)->0
                == "true"@,
            network_reset_day: unsigned_in(lines, "network_reset_day"@, u32::MAX as nat) as u32,
            network_interval: unsigned_in(lines, "network_interval"@, u32::MAX as nat) as u32,
            network_interval_number: unsigned_in(
                lines,
                "network_interval_number"@,
                u32::MAX as nat,
            ) as u32,
            network_calibration_tx: signed_in(lines, "network_calibration_tx"@) as i64,
            network_calibration_rx: signed_in(lines, "network_calibration_rx"@) as i64,
            network_save_path: Seq::empty(),
            config_path: None,
        }
    }

    /// What reading a settings file gives: the settings, or the message
    /// that names the first key without a usable value.
    pub open spec fn parsed(text: Seq<char>) -> Result<NetworkConfigModel, Seq<char>> {
        match reading_error(Self::fields(), Self::rules(), lines_of(text)) {
            Some(message) => Err(message),
            None => Ok(Self::assembled(lines_of(text))),
        }
    }
}

impl NetworkInfoModel {
    /// The entries of the record, in the order in which they are written.
    pub open spec fn entries(self) -> Seq<(Seq<char>, Seq<char>)> {
        self.config.entries() + seq![
            ("boot_id"@, self.boot_id),
            ("source_tx"@, decimal(self.source_tx as nat)),
            ("source_rx"@, decimal(self.source_rx as nat)),
            ("latest_tx"@, decimal(self.latest_tx as nat)),
            ("latest_rx"@, decimal(self.latest_rx as nat)),
            ("last_reset_month"@, self.last_reset_month),
        ]
    }

    /// The text of the record: one line for each entry, each ended by a
    /// line feed.
    pub open spec fn encoded(self) -> Seq<char> {
        join(rendered(self.entries()).push(Seq::empty()), '\n')
    }

    /// The keys of the record. All but the path of the settings file are
    /// required.
    pub open spec fn fields() -> Seq<Field> {
        seq![
            Field { name: "disable_network_statistics", kind: ValueKind::Flag, required: true },
            Field { name: "network_reset_day", kind: ValueKind::U32, required: true },
            Field { name: "network_interval", kind: ValueKind::U32, required: true },
            Field { name: "network_interval_number", kind: ValueKind::U32, required: true },
            Field { name: "network_calibration_tx", kind: ValueKind::I64, required: true },
            Field { name: "network_calibration_rx", kind: ValueKind::I64, required: true },
            Field { name: "network_save_path", kind: ValueKind::Text, required: true },
            Field { name: "config_path", kind: ValueKind::Text, required: false },
            Field { name: "boot_id", kind: ValueKind::Text, required: true },
            Field { name: "source_tx", kind: ValueKind::U64, required: true },
            Field { name: "source_rx", kind: ValueKind::U64, required: true },
            Field { name: "latest_tx", kind: ValueKind::U64, required: true },
            Field { name: "latest_rx", kind: ValueKind::U64, required: true },
            Field { name: "last_reset_month", kind: ValueKind::Text, required: true },
        ]
    }

    /// A line without `=` and a value of the wrong kind are faults; keys
    /// that the record does not know are passed over.
    pub open spec fn rules() -> Rules {
        Rules { style: Style::Numbered, strict: true, closed: false }
    }

    /// The record that lines without fault and with every required key
    /// describe.
    pub open spec fn assembled(lines: Seq<Seq<char>>) -> NetworkInfoModel {
        NetworkInfoModel {
            config: NetworkConfigModel {
                network_save_path: last_value(lines, "network_save_path"@)->0,
                config_path: last_value(lines, "config_path"@),
                ..NetworkConfigModel::assembled(lines)
            },
            boot_id: last_value(lines, "boot_id"@)->0,
            source_tx: unsigned_in(lines, "source_tx"@, u64::MAX as nat) as u64,
            source_rx: unsigned_in(lines, "source_rx"@, u64::MAX as nat) as u64,
            latest_tx: unsigned_in(lines, "latest_tx"@, u64::MAX as nat) as u64,
            latest_rx: unsigned_in(lines, "latest_rx"@, u64::MAX as nat) as u64,
            last_reset_month: last_value(lines, "last_reset_month"@)->0,
        }
    }

    /// What reading `text` gives: the record it describes, or the message
    /// of its first faulty line, or else that of its first missing key.
    pub open spec fn decoded(text: Seq<char>) -> Result<NetworkInfoModel, Seq<char>> {
        match reading_error(Self::fields(), Self::rules(), lines_of(text)) {
            Some(message) => Err(message),
            None => Ok(Self::assembled(lines_of(text))),
        }
    }

    /// A record survives its text unchanged if the texts it holds are
    /// trimmed and on one line.
    pub open spec fn storable(self) -> bool {
        &&& is_value(self.config.network_save_path)
        &&& (self.config.config_path matches Some(path) ==> is_value(path))
        &&& is_value(self.boot_id)
        &&& is_value(self.last_reset_month)
    }
}

proof fn lemma_record_names()
    ensures
        names_distinct(NetworkInfoModel::fields()),
        names_distinct(NetworkConfigModel::fields()),
        is_key("disable_network_statistics"@),
        is_key("network_reset_day"@),
        is_key("network_interval"@),
        is_key("network_interval_number"@),
        is_key("network_calibration_tx"@),
        is_key("network_calibration_rx"@),
        is_key("network_save_path"@),
        is_key("config_path"@),
        is_key("boot_id"@),
        is_key("source_tx"@),
        is_key("source_rx"@),
        is_key("latest_tx"@),
        is_key("latest_rx"@),
        is_key("last_reset_month"@),
{
    reveal_strlit("disable_network_statistics");
    reveal_strlit("network_reset_day");
    reveal_strlit("network_interval");
    reveal_strlit("network_interval_number");
    reveal_strlit("network_calibration_tx");
    reveal_strlit("network_calibration_rx");
    reveal_strlit("network_save_path");
    reveal_strlit("config_path");
    reveal_strlit("boot_id");
    reveal_strlit("source_tx");
    reveal_strlit("source_rx");
    reveal_strlit("latest_tx");
    reveal_strlit("latest_rx");
    reveal_strlit("last_reset_month");
    let f = NetworkInfoModel::fields();
    assert(f[0].name@.len() == 26);
    assert(f[1].name@.len() == 17);
    assert(f[2].name@.len() == 16 && f[2].name@[0] == 'n');
    assert(f[3].name@.len() == 23);
    assert(f[4].name@.len() == 22 && f[4].name@[20] == 't');
    assert(f[5].name@.len() == 22 && f[5].name@[20] == 'r');
    assert(f[6].name@.len() == 17 && f[6].name@[8] == 's');
    assert(f[1].name@[8] == 'r');
    assert(f[7].name@.len() == 11);
    assert(f[8].name@.len() == 7);
    assert(f[9].name@.len() == 9 && f[9].name@[0] == 's' && f[9].name@[7] == 't');
    assert(f[10].name@.len() == 9 && f[10].name@[0] == 's' && f[10].name@[7] == 'r');
    assert(f[11].name@.len() == 9 && f[11].name@[0] == 'l' && f[11].name@[7] == 't');
    assert(f[12].name@.len() == 9 && f[12].name@[0] == 'l' && f[12].name@[7] == 'r');
    assert(f[13].name@.len() == 16 && f[13].name@[0] == 'l');
    let g = NetworkConfigModel::fields();
    assert(g[0].name@ == f[0].name@);
    assert(g[1].name@ == f[1].name@);
    assert(g[2].name@ == f[2].name@);
    assert(g[3].name@ == f[3].name@);
    assert(g[4].name@ == f[4].name@);
    assert(g[5].name@ == f[5].name@);
}

proof fn lemma_flag_text(on: bool)
    ensures
        is_value(flag_text(on)),
        accepts(ValueKind::Flag, flag_text(on)),
        (flag_text(on) == "true"@) == on,
{
    reveal_strlit("true");
    reveal_strlit("false");
    assert("true"@.len() == 4 && "false"@.len() == 5);
    assert("true"@[0] == 't' && "true"@.last() == 'e');
    assert("false"@[0] == 'f' && "false"@.last() == 'e');
}

/// The entries of a storable record are proper, each under a key of the
/// record's schema and of the kind that the schema asks for.
proof fn lemma_record_entries(record: NetworkInfoModel)
    requires
        record.storable(),
    ensures
        entries_proper(record.entries()),
        record.entries().len() == (if record.config.config_path is Some {
            14int
        } else {
            13int
        }),
        forall|i: int|
            0 <= i < record.entries().len() ==> is_value((#[trigger] record.entries()[i]).1),
        forall|i: int|
            0 <= i < record.entries().len() ==> (kind_of(
                NetworkInfoModel::fields(),
                (#[trigger] record.entries()[i]).0,
            ) matches Some(kind) && accepts(kind, record.entries()[i].1)),
        forall|i: int|
            0 <= i < 7 ==> (#[trigger] record.entries()[i]).0 == NetworkInfoModel::fields()[i].name@,
        record.config.config_path is Some ==> forall|i: int|
            7 <= i < 14 ==> (#[trigger] record.entries()[i]).0
                == NetworkInfoModel::fields()[i].name@,
        record.config.config_path is None ==> forall|i: int|
            7 <= i < 13 ==> (#[trigger] record.entries()[i]).0 == NetworkInfoModel::fields()[i
                + 1].name@,
        record.config.config_path is None ==> forall|i: int|
            0 <= i < 13 ==> (#[trigger] record.entries()[i]).0 != "config_path"@,
{
    let entries = record.entries();
    let fields = NetworkInfoModel::fields();
    lemma_record_names();
    lemma_flag_text(record.config.disable_network_statistics);
    lemma_parse_unsigned_decimal(record.config.network_reset_day as nat, u32::MAX as nat);
    lemma_parse_unsigned_decimal(record.config.network_interval as nat, u32::MAX as nat);
    lemma_parse_unsigned_decimal(record.config.network_interval_number as nat, u32::MAX as nat);
    lemma_parse_signed_decimal(
        record.config.network_calibration_tx as int,
        i64::MIN as int,
        i64::MAX as int,
    );
    lemma_parse_signed_decimal(
        record.config.network_calibration_rx as int,
        i64::MIN as int,
        i64::MAX as int,
    );
    lemma_parse_unsigned_decimal(record.source_tx as nat, u64::MAX as nat);
    lemma_parse_unsigned_decimal(record.source_rx as nat, u64::MAX as nat);
    lemma_parse_unsigned_decimal(record.latest_tx as nat, u64::MAX as nat);
    lemma_parse_unsigned_decimal(record.latest_rx as nat, u64::MAX as nat);
    assert forall|k: int| 0 <= k < fields.len() implies kind_of(fields, (#[trigger] fields[k]).name@)
        == Some(fields[k].kind) by {
        lemma_kind_of_field(fields, k);
    }
    assert(fields[0].kind == ValueKind::Flag && fields[7].kind == ValueKind::Text);
    if record.config.config_path is Some {
        assert(entries.len() == 14);
        assert forall|i: int| 0 <= i < 14 implies (#[trigger] entries[i]).0 == fields[i].name@
            && is_value(entries[i].1) && accepts(fields[i].kind, entries[i].1) by {}
    } else {
        assert(entries.len() == 13);
        assert forall|i: int| 0 <= i < 13 implies (#[trigger] entries[i]).0 == fields[if i < 7 {
            i
        } else {
            i + 1
        }].name@ && is_value(entries[i].1) && accepts(
            fields[if i < 7 {
                i
            } else {
                i + 1
            }].kind,
            entries[i].1,
        ) by {}
    }
}

/// Reading the text that was written for a record gives that record again,
/// for every record whose texts are trimmed and on one line.
pub proof fn lemma_record_decode_encode(record: NetworkInfoModel)
    requires
        record.storable(),
    ensures
        NetworkInfoModel::decoded(record.encoded()) == Ok::<NetworkInfoModel, Seq<char>>(record),
{
    let entries = record.entries();
    let fields = NetworkInfoModel::fields();
    let rules = NetworkInfoModel::rules();
    let head = Seq::<Seq<char>>::empty();
    let body = rendered(entries);
    let lines = body.push(Seq::empty());
    lemma_record_names();
    lemma_record_entries(record);
    assert(head + body =~= body);
    assert(all_blank(head));
    assert(lines.drop_last() =~= body);
    assert(classify(lines.last()) is Blank);
    assert forall|k: int, j: int| 0 <= k < lines.len() && 0 <= j < lines[k].len() implies (
    #[trigger] lines[k][j]) != '\n' by {
        if k < body.len() {
            let e = entries[k];
            assert(lines[k] == e.0.push('=') + e.1);
            assert(is_key(e.0) && is_value(e.1));
            if j < e.0.len() {
                assert(lines[k][j] == e.0[j]);
            } else if j > e.0.len() {
                assert(lines[k][j] == e.1[j - e.0.len() - 1]);
            }
        }
    }
    lemma_split_join(lines, '\n');
    lemma_no_fault(fields, rules, head, entries);
    assert forall|i: int| 0 <= i < entries.len() implies last_value(
        lines,
        (#[trigger] entries[i]).0,
    ) == Some(entries[i].1) by {
        lemma_entry_value(head, entries, i);
    }
    if record.config.config_path is None {
        lemma_absent_value(head, entries, "config_path"@);
    }
    assert forall|k: int| 0 <= k < fields.len() && (#[trigger] fields[k]).required implies usable(
        fields[k],
        lines,
    ) by {
        let i = if k < 7 || record.config.config_path is Some {
            k
        } else {
            k - 1
        };
        assert(entries[i].0 == fields[k].name@);
        lemma_kind_of_field(fields, k);
    }
    lemma_nothing_missing(fields, lines);
    let got = NetworkInfoModel::assembled(lines);
    assert(entries[0].0 == "disable_network_statistics"@);
    assert(entries[1].0 == "network_reset_day"@);
    assert(entries[2].0 == "network_interval"@);
    assert(entries[3].0 == "network_interval_number"@);
    assert(entries[4].0 == "network_calibration_tx"@);
    assert(entries[5].0 == "network_calibration_rx"@);
    assert(entries[6].0 == "network_save_path"@);
    let shift = if record.config.config_path is Some {
        1int
    } else {
        0int
    };
    assert(entries[7 + shift].0 == "boot_id"@);
    assert(entries[8 + shift].0 == "source_tx"@);
    assert(entries[9 + shift].0 == "source_rx"@);
    assert(entries[10 + shift].0 == "latest_tx"@);
    assert(entries[11 + shift].0 == "latest_rx"@);
    assert(entries[12 + shift].0 == "last_reset_month"@);
    if record.config.config_path is Some {
        assert(entries[7].0 == "config_path"@);
    }
    lemma_flag_text(record.config.disable_network_statistics);
    lemma_parse_unsigned_decimal(record.config.network_reset_day as nat, u32::MAX as nat);
    lemma_parse_unsigned_decimal(record.config.network_interval as nat, u32::MAX as nat);
    lemma_parse_unsigned_decimal(record.config.network_interval_number as nat, u32::MAX as nat);
    lemma_parse_signed_decimal(
        record.config.network_calibration_tx as int,
        i64::MIN as int,
        i64::MAX as int,
    );
    lemma_parse_signed_decimal(
        record.config.network_calibration_rx as int,
        i64::MIN as int,
        i64::MAX as int,
    );
    lemma_parse_unsigned_decimal(record.source_tx as nat, u64::MAX as nat);
    lemma_parse_unsigned_decimal(record.source_rx as nat, u64::MAX as nat);
    lemma_parse_unsigned_decimal(record.latest_tx as nat, u64::MAX as nat);
    lemma_parse_unsigned_decimal(record.latest_rx as nat, u64::MAX as nat);
    assert(got.config.config_path == record.config.config_path);
    assert(got.config == record.config);
}

fn record_schema() -> (r: Vec<Field>)
    ensures
        r@ == NetworkInfoModel::fields(),
        names_distinct(r@),
{
    let mut r: Vec<Field> = Vec::new();
    r.push(Field { name: "disable_network_statistics", kind: ValueKind::Flag, required: true });
    r.push(Field { name: "network_reset_day", kind: ValueKind::U32, required: true });
    r.push(Field { name: "network_interval", kind: ValueKind::U32, required: true });
    r.push(Field { name: "network_interval_number", kind: ValueKind::U32, required: true });
    r.push(Field { name: "network_calibration_tx", kind: ValueKind::I64, required: true });
    r.push(Field { name: "network_calibration_rx", kind: ValueKind::I64, required: true });
    r.push(Field { name: "network_save_path", kind: ValueKind::Text, required: true });
    r.push(Field { name: "config_path", kind: ValueKind::Text, required: false });
    r.push(Field { name: "boot_id", kind: ValueKind::Text, required: true });
    r.push(Field { name: "source_tx", kind: ValueKind::U64, required: true });
    r.push(Field { name: "source_rx", kind: ValueKind::U64, required: true });
    r.push(Field { name: "latest_tx", kind: ValueKind::U64, required: true });
    r.push(Field { name: "latest_rx", kind: ValueKind::U64, required: true });
    r.push(Field { name: "last_reset_month", kind: ValueKind::Text, required: true });
    proof {
        assert(r@ =~= NetworkInfoModel::fields());
        lemma_record_names();
    }
    r
}

fn settings_schema() -> (r: Vec<Field>)
    ensures
        r@ == NetworkConfigModel::fields(),
        names_distinct(r@),
{
    let mut r: Vec<Field> = Vec::new();
    r.push(Field { name: "disable_network_statistics", kind: ValueKind::Flag, required: true });
    r.push(Field { name: "network_reset_day", kind: ValueKind::U32, required: true });
    r.push(Field { name: "network_interval", kind: ValueKind::U32, required: true });
    r.push(Field { name: "network_interval_number", kind: ValueKind::U32, required: true });
    r.push(Field { name: "network_calibration_tx", kind: ValueKind::I64, required: true });
    r.push(Field { name: "network_calibration_rx", kind: ValueKind::I64, required: true });
    proof {
        assert(r@ =~= NetworkConfigModel::fields());
        lemma_record_names();
    }
    r
}

fn flag_string(on: bool) -> (r: String)
    ensures
        r@ == flag_text(on),
{
    if on {
        String::from_str("true")
    } else {
        String::from_str("false")
    }
}

impl NetworkConfig {
    /// Reads a settings file. Lines that cannot be read are passed over;
    /// the result is an error only where a key has no usable value. The
    /// paths are left empty.
    pub fn parse(content: &str) -> (r: Result<NetworkConfig, String>)
        ensures
            match r {
                Ok(config) => NetworkConfigModel::parsed(content@) == Ok::<
                    NetworkConfigModel,
                    Seq<char>,
                >(config@),
                Err(message) => NetworkConfigModel::parsed(content@) == Err::<
                    NetworkConfigModel,
                    Seq<char>,
                >(message@),
            },
    {
        let chars = to_chars(content);
        let schema = settings_schema();
        let rules = Rules { style: Style::Terse, strict: false, closed: false };
        let values = match read_values(chars.as_slice(), schema.as_slice(), rules) {
            Ok(values) => values,
            Err(message) => {
                return Err(message);
            },
        };
        proof {
            let lines = lines_of(content@);
            let fields = NetworkConfigModel::fields();
            assert(fields[0].required && usable(fields[0], lines));
            assert(fields[1].required && usable(fields[1], lines));
            assert(fields[2].required && usable(fields[2], lines));
            assert(fields[3].required && usable(fields[3], lines));
            assert(fields[4].required && usable(fields[4], lines));
            assert(fields[5].required && usable(fields[5], lines));
        }
        Ok(
            NetworkConfig {
                disable_network_statistics: flag_at(&values, 0),
                network_reset_day: unsigned_at(&values, 1, 4294967295) as u32,
                network_interval: unsigned_at(&values, 2, 4294967295) as u32,
                network_interval_number: unsigned_at(&values, 3, 4294967295) as u32,
                network_calibration_tx: signed_at(&values, 4),
                network_calibration_rx: signed_at(&values, 5),
                network_save_path: String::new(),
                config_path: None,
            },
        )
    }
}

impl NetworkInfo {
    /// Encoder: writes the record as text, one entry to a line
    pub fn encode(&self) -> (r: String)
        ensures
            r@ == self@.encoded(),
    {
        let mut lines: Vec<String> = Vec::new();
        lines.push(
            entry(
                "disable_network_statistics",
                flag_string(self.config.disable_network_statistics).as_str(),
            ),
        );
        lines.push(
            entry("network_reset_day", decimal_text(self.config.network_reset_day as u64).as_str()),
        );
        lines.push(
            entry("network_interval", decimal_text(self.config.network_interval as u64).as_str()),
        );
        lines.push(
            entry(
                "network_interval_number",
                decimal_text(self.config.network_interval_number as u64).as_str(),
            ),
        );
        lines.push(
            entry(
                "network_calibration_tx",
                signed_decimal_text(self.config.network_calibration_tx).as_str(),
            ),
        );
        lines.push(
            entry(
                "network_calibration_rx",
                signed_decimal_text(self.config.network_calibration_rx).as_str(),
            ),
        );
        lines.push(entry("network_save_path", self.config.network_save_path.as_str()));
        match &self.config.config_path {
            Some(path) => {
                lines.push(entry("config_path", path.as_str()));
            },
            None => {},
        }
        assert(texts(lines@) =~= rendered(self@.config.entries()));
        lines.push(entry("boot_id", self.boot_id.as_str()));
        lines.push(entry("source_tx", decimal_text(self.source_tx).as_str()));
        lines.push(entry("source_rx", decimal_text(self.source_rx).as_str()));
        lines.push(entry("latest_tx", decimal_text(self.latest_tx).as_str()));
        lines.push(entry("latest_rx", decimal_text(self.latest_rx).as_str()));
        lines.push(entry("last_reset_month", self.last_reset_month.as_str()));
        lines.push(String::new());
        proof {
            assert(texts(lines@) =~= rendered(self@.entries()).push(Seq::empty()));
        }
        join_lines(&lines)
    }

    /// Decoder: Parses NetworkInfo from a String
    pub fn decode(input: &str) -> (r: Result<Self, String>)
        ensures
            match r {
                Ok(info) => NetworkInfoModel::decoded(input@) == Ok::<NetworkInfoModel, Seq<char>>(
                    info@,
                ),
                Err(message) => NetworkInfoModel::decoded(input@) == Err::<
                    NetworkInfoModel,
                    Seq<char>,
                >(message@),
            },
    {
        let chars = to_chars(input);
        let schema = record_schema();
        let rules = Rules { style: Style::Numbered, strict: true, closed: false };
        let values = match read_values(chars.as_slice(), schema.as_slice(), rules) {
            Ok(values) => values,
            Err(message) => {
                return Err(message);
            },
        };
        proof {
            let lines = lines_of(input@);
            let fields = NetworkInfoModel::fields();
            assert(fields[0].required && usable(fields[0], lines));
            assert(fields[1].required && usable(fields[1], lines));
            assert(fields[2].required && usable(fields[2], lines));
            assert(fields[3].required && usable(fields[3], lines));
            assert(fields[4].required && usable(fields[4], lines));
            assert(fields[5].required && usable(fields[5], lines));
            assert(fields[6].required && usable(fields[6], lines));
            assert(fields[8].required && usable(fields[8], lines));
            assert(fields[9].required && usable(fields[9], lines));
            assert(fields[10].required && usable(fields[10], lines));
            assert(fields[11].required && usable(fields[11], lines));
            assert(fields[12].required && usable(fields[12], lines));
            assert(fields[13].required && usable(fields[13], lines));
        }
        let config_path = match values[7] {
            Some(_) => Some(text_at(&values, 7)),
            None => None,
        };
        Ok(
            NetworkInfo {
                config: NetworkConfig {
                    disable_network_statistics: flag_at(&values, 0),
                    network_reset_day: unsigned_at(&values, 1, 4294967295) as u32,
                    network_interval: unsigned_at(&values, 2, 4294967295) as u32,
                    network_interval_number: unsigned_at(&values, 3, 4294967295) as u32,
                    network_calibration_tx: signed_at(&values, 4),
                    network_calibration_rx: signed_at(&values, 5),
                    network_save_path: text_at(&values, 6),
                    config_path,
                },
                boot_id: text_at(&values, 8),
                source_tx: unsigned_at(&values, 9, u64::MAX),
                source_rx: unsigned_at(&values, 10, u64::MAX),
                latest_tx: unsigned_at(&values, 11, u64::MAX),
                latest_rx: unsigned_at(&values, 12, u64::MAX),
                last_reset_month: text_at(&values, 13),
            },
        )
    }
}

} // verus!
