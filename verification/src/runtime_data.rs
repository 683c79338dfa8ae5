//! The runtime data that the agent keeps on disk: the traffic counters
//! and the text of their file.

use vstd::prelude::*;
use vstd::std_specs::cmp::PartialEqSpecImpl;
use vstd::string::StringExecFns;
use crate::keyvalue::{
    accepts,
    all_blank,
    classify,
    entries_proper,
    entry,
    is_key,
    carries_nothing,
    first_fault,
    is_value,
    join_lines,
    keys_once,
    kind_of,
    last_value,
    lemma_entry_value,
    lemma_kind_of_field,
    lemma_kind_of_known,
    lemma_line_that_carries_nothing,
    lemma_missing_is_reported,
    lemma_no_fault,
    lemma_nothing_missing,
    lemma_order_is_immaterial,
    lemma_same_values_same_missing,
    lines_of,
    names_distinct,
    read_values,
    reading_error,
    rendered,
    text_at,
    texts,
    unsigned_at,
    usable,
    Field,
    Rules,
    Style,
    ValueKind,
};
use crate::number::{decimal, decimal_text, lemma_parse_unsigned_decimal, parse_unsigned};
use crate::text::{
    is_trimmed,
    join,
    lemma_join_not_empty,
    lemma_split_join,
    lemma_trimmed_is_trimmed,
    to_chars,
    to_text,
    trim,
    trimmed,
};

verus! {

/// The counters that outlive the process: what has been sent and received
/// in the current billing period, and where the period and the boot began.
#[derive(Debug, Clone)]
pub struct RuntimeData {
    /// Identifier of the boot under which the counters were last written.
    pub boot_id: String,
    /// Interface counters at the start of what `current_boot_*` measures.
    pub boot_source_tx: u64,
    pub boot_source_rx: u64,
    /// Traffic since `boot_source_*` was taken.
    pub current_boot_tx: u64,
    pub current_boot_rx: u64,
    /// Traffic of earlier boots in the same billing period.
    pub accumulated_tx: u64,
    pub accumulated_rx: u64,
    /// Month (1 to 12) of the last billing reset.
    pub last_reset_month: u8,
}

/// What a `RuntimeData` holds, as plain values.
pub struct RuntimeModel {
    pub boot_id: Seq<char>,
    pub boot_source_tx: u64,
    pub boot_source_rx: u64,
    pub current_boot_tx: u64,
    pub current_boot_rx: u64,
    pub accumulated_tx: u64,
    pub accumulated_rx: u64,
    pub last_reset_month: u8,
}

impl View for RuntimeData {
    type V = RuntimeModel;

    open spec fn view(&self) -> RuntimeModel {
        RuntimeModel {
            boot_id: self.boot_id@,
            boot_source_tx: self.boot_source_tx,
            boot_source_rx: self.boot_source_rx,
            current_boot_tx: self.current_boot_tx,
            current_boot_rx: self.current_boot_rx,
            accumulated_tx: self.accumulated_tx,
            accumulated_rx: self.accumulated_rx,
            last_reset_month: self.last_reset_month,
        }
    }
}

impl PartialEq for RuntimeData {
    fn eq(&self, other: &Self) -> (r: bool) {
        self.boot_id == other.boot_id && self.boot_source_tx == other.boot_source_tx
            && self.boot_source_rx == other.boot_source_rx && self.current_boot_tx
            == other.current_boot_tx && self.current_boot_rx == other.current_boot_rx
            && self.accumulated_tx == other.accumulated_tx && self.accumulated_rx
            == other.accumulated_rx && self.last_reset_month == other.last_reset_month
    }
}

impl PartialEqSpecImpl for RuntimeData {
    open spec fn obeys_eq_spec() -> bool {
        true
    }

    open spec fn eq_spec(&self, other: &Self) -> bool {
        self@ == other@
    }
}

impl Default for RuntimeData {
    fn default() -> (r: Self)
        ensures
            r@ == RuntimeModel::initial(Seq::empty(), 1),
    {
        RuntimeData {
            boot_id: String::new(),
            boot_source_tx: 0,
            boot_source_rx: 0,
            current_boot_tx: 0,
            current_boot_rx: 0,
            accumulated_tx: 0,
            accumulated_rx: 0,
            last_reset_month: 1,
        }
    }
}

impl RuntimeModel {
    /// The state before any traffic was counted.
    pub open spec fn initial(boot_id: Seq<char>, month: u8) -> RuntimeModel {
        RuntimeModel {
            boot_id,
            boot_source_tx: 0,
            boot_source_rx: 0,
            current_boot_tx: 0,
            current_boot_rx: 0,
            accumulated_tx: 0,
            accumulated_rx: 0,
            last_reset_month: month,
        }
    }

    /// The two comment lines and the empty line at the top of the file.
    pub open spec fn header() -> Seq<Seq<char>> {
        seq![
            "# Komari Monitor Runtime Data"@,
            "# This file is automatically managed by the program. Do not modify manually."@,
            Seq::empty(),
        ]
    }

    /// The entries of the file, in the order in which they are written.
    pub open spec fn entries(self) -> Seq<(Seq<char>, Seq<char>)> {
        seq![
            ("boot_id"@, self.boot_id),
            ("boot_source_tx"@, decimal(self.boot_source_tx as nat)),
            ("boot_source_rx"@, decimal(self.boot_source_rx as nat)),
            ("current_boot_tx"@, decimal(self.current_boot_tx as nat)),
            ("current_boot_rx"@, decimal(self.current_boot_rx as nat)),
            ("accumulated_tx"@, decimal(self.accumulated_tx as nat)),
            ("accumulated_rx"@, decimal(self.accumulated_rx as nat)),
            ("last_reset_month"@, decimal(self.last_reset_month as nat)),
        ]
    }

    /// The text of the file that holds this state.
    pub open spec fn encoded(self) -> Seq<char> {
        join(Self::header() + rendered(self.entries()), '\n')
    }

    /// The keys of the file. All of them are required.
    pub open spec fn fields() -> Seq<Field> {
        seq![
            Field { name: "boot_id", kind: ValueKind::Text, required: true },
            Field { name: "boot_source_tx", kind: ValueKind::U64, required: true },
            Field { name: "boot_source_rx", kind: ValueKind::U64, required: true },
            Field { name: "current_boot_tx", kind: ValueKind::U64, required: true },
            Field { name: "current_boot_rx", kind: ValueKind::U64, required: true },
            Field { name: "accumulated_tx", kind: ValueKind::U64, required: true },
            Field { name: "accumulated_rx", kind: ValueKind::U64, required: true },
            Field { name: "last_reset_month", kind: ValueKind::U8, required: true },
        ]
    }

    /// A line without `=` and a number that does not parse are faults; keys
    /// that the file format does not know are passed over.
    pub open spec fn rules() -> Rules {
        Rules { style: Style::Quoting, strict: true, closed: false }
    }

    /// The number that the lines give under `key`.
    pub open spec fn number(lines: Seq<Seq<char>>, key: Seq<char>, max: nat) -> nat {
        parse_unsigned(last_value(lines, key)->0, max)->0
    }

    /// The state that lines without fault and with every key describe.
    pub open spec fn assembled(lines: Seq<Seq<char>>) -> RuntimeModel {
        RuntimeModel {
            boot_id: last_value(lines, "boot_id"@)->0,
            boot_source_tx: Self::number(lines, "boot_source_tx"@, u64::MAX as nat) as u64,
            boot_source_rx: Self::number(lines, "boot_source_rx"@, u64::MAX as nat) as u64,
            current_boot_tx: Self::number(lines, "current_boot_tx"@, u64::MAX as nat) as u64,
            current_boot_rx: Self::number(lines, "current_boot_rx"@, u64::MAX as nat) as u64,
            accumulated_tx: Self::number(lines, "accumulated_tx"@, u64::MAX as nat) as u64,
            accumulated_rx: Self::number(lines, "accumulated_rx"@, u64::MAX as nat) as u64,
            last_reset_month: Self::number(lines, "last_reset_month"@, u8::MAX as nat) as u8,
        }
    }

    /// What reading the lines gives: the state they describe, or the
    /// message of the first faulty line, or else that of the first missing
    /// key.
    pub open spec fn read(lines: Seq<Seq<char>>) -> Result<RuntimeModel, Seq<char>> {
        match reading_error(Self::fields(), Self::rules(), lines) {
            Some(message) => Err(message),
            None => Ok(Self::assembled(lines)),
        }
    }

    /// What reading `text` gives: what reading its lines gives.
    pub open spec fn decoded(text: Seq<char>) -> Result<RuntimeModel, Seq<char>> {
        Self::read(lines_of(text))
    }

    /// A state survives the file unchanged if its boot identifier is trimmed
    /// and on one line.
    pub open spec fn storable(self) -> bool {
        is_value(self.boot_id)
    }
}

proof fn lemma_runtime_names()
    ensures
        names_distinct(RuntimeModel::fields()),
        is_key("boot_id"@),
        is_key("boot_source_tx"@),
        is_key("boot_source_rx"@),
        is_key("current_boot_tx"@),
        is_key("current_boot_rx"@),
        is_key("accumulated_tx"@),
        is_key("accumulated_rx"@),
        is_key("last_reset_month"@),
{
    reveal_strlit("boot_id");
    reveal_strlit("boot_source_tx");
    reveal_strlit("boot_source_rx");
    reveal_strlit("current_boot_tx");
    reveal_strlit("current_boot_rx");
    reveal_strlit("accumulated_tx");
    reveal_strlit("accumulated_rx");
    reveal_strlit("last_reset_month");
    let f = RuntimeModel::fields();
    assert(f[0].name@.len() == 7);
    assert(f[1].name@[12] == 't' && f[1].name@[0] == 'b');
    assert(f[2].name@[12] == 'r' && f[2].name@[0] == 'b');
    assert(f[3].name@[13] == 't' && f[3].name@[0] == 'c');
    assert(f[4].name@[13] == 'r' && f[4].name@[0] == 'c');
    assert(f[5].name@[12] == 't' && f[5].name@[0] == 'a');
    assert(f[6].name@[12] == 'r' && f[6].name@[0] == 'a');
    assert(f[7].name@.len() == 16);
}

proof fn lemma_runtime_header()
    ensures
        all_blank(RuntimeModel::header()),
        forall|k: int, j: int|
            0 <= k < RuntimeModel::header().len() && 0 <= j < RuntimeModel::header()[k].len() ==> (
            #[trigger] RuntimeModel::header()[k][j]) != '\n',
{
    let a = "# Komari Monitor Runtime Data"@;
    let b = "# This file is automatically managed by the program. Do not modify manually."@;
    reveal_strlit("# Komari Monitor Runtime Data");
    reveal_strlit(
        "# This file is automatically managed by the program. Do not modify manually.",
    );
    assert(a[0] == '#' && a.last() == 'a');
    assert(b[0] == '#' && b.last() == '.');
    assert(is_trimmed(a) && is_trimmed(b));
    let h = RuntimeModel::header();
    assert(classify(h[0]) is Blank);
    assert(classify(h[1]) is Blank);
    assert(classify(h[2]) is Blank);
}

/// Reading the file that was written for a state gives that state again,
/// for every state whose boot identifier is trimmed and on one line.
pub proof fn lemma_decode_encode(state: RuntimeModel)
    requires
        state.storable(),
    ensures
        RuntimeModel::decoded(state.encoded()) == Ok::<RuntimeModel, Seq<char>>(state),
{
    let head = RuntimeModel::header();
    let entries = state.entries();
    let fields = RuntimeModel::fields();
    let rules = RuntimeModel::rules();
    let lines = head + rendered(entries);
    lemma_runtime_names();
    lemma_runtime_header();
    lemma_parse_unsigned_decimal(state.boot_source_tx as nat, u64::MAX as nat);
    lemma_parse_unsigned_decimal(state.boot_source_rx as nat, u64::MAX as nat);
    lemma_parse_unsigned_decimal(state.current_boot_tx as nat, u64::MAX as nat);
    lemma_parse_unsigned_decimal(state.current_boot_rx as nat, u64::MAX as nat);
    lemma_parse_unsigned_decimal(state.accumulated_tx as nat, u64::MAX as nat);
    lemma_parse_unsigned_decimal(state.accumulated_rx as nat, u64::MAX as nat);
    lemma_parse_unsigned_decimal(state.last_reset_month as nat, u8::MAX as nat);
    assert(entries_proper(entries) && entries.len() == 8 && forall|i: int|
        0 <= i < entries.len() ==> is_value((#[trigger] entries[i]).1));
    assert forall|i: int| 0 <= i < entries.len() implies (kind_of(
        fields,
        (#[trigger] entries[i]).0,
    ) matches Some(kind) && accepts(kind, entries[i].1)) && entries[i].0 == fields[i].name@
        && kind_of(fields, entries[i].0) == Some(fields[i].kind) by {
        lemma_kind_of_field(fields, i);
    }
    assert forall|k: int, j: int| 0 <= k < lines.len() && 0 <= j < lines[k].len() implies (
    #[trigger] lines[k][j]) != '\n' by {
        if k < head.len() {
            assert(lines[k] == head[k]);
        } else {
            let e = entries[k - 3];
            assert(lines[k] == e.0.push('=') + e.1);
            assert(is_key(e.0) && is_value(e.1));
            if j < e.0.len() {
                assert(lines[k][j] == e.0[j]);
            } else if j > e.0.len() {
                assert(lines[k][j] == e.1[j - e.0.len() - 1]);
            }
        }
    }
    lemma_split_join(lines, '\n');
    lemma_no_fault(fields, rules, head, entries);
    assert forall|k: int| 0 <= k < fields.len() && (#[trigger] fields[k]).required implies usable(
        fields[k],
        lines,
    ) by {
        lemma_entry_value(head, entries, k);
        assert(entries[k].0 == fields[k].name@);
    }
    lemma_nothing_missing(fields, lines);
    lemma_entry_value(head, entries, 0);
    lemma_entry_value(head, entries, 1);
    lemma_entry_value(head, entries, 2);
    lemma_entry_value(head, entries, 3);
    lemma_entry_value(head, entries, 4);
    lemma_entry_value(head, entries, 5);
    lemma_entry_value(head, entries, 6);
    lemma_entry_value(head, entries, 7);
}

proof fn lemma_runtime_fields_known()
    ensures
        kind_of(RuntimeModel::fields(), "boot_id"@) is Some,
        kind_of(RuntimeModel::fields(), "boot_source_tx"@) is Some,
        kind_of(RuntimeModel::fields(), "boot_source_rx"@) is Some,
        kind_of(RuntimeModel::fields(), "current_boot_tx"@) is Some,
        kind_of(RuntimeModel::fields(), "current_boot_rx"@) is Some,
        kind_of(RuntimeModel::fields(), "accumulated_tx"@) is Some,
        kind_of(RuntimeModel::fields(), "accumulated_rx"@) is Some,
        kind_of(RuntimeModel::fields(), "last_reset_month"@) is Some,
{
    let fields = RuntimeModel::fields();
    lemma_kind_of_known(fields, 0);
    lemma_kind_of_known(fields, 1);
    lemma_kind_of_known(fields, 2);
    lemma_kind_of_known(fields, 3);
    lemma_kind_of_known(fields, 4);
    lemma_kind_of_known(fields, 5);
    lemma_kind_of_known(fields, 6);
    lemma_kind_of_known(fields, 7);
}

/// Lines that give the eight keys the same values are read alike, as far
/// as they are without fault.
proof fn lemma_same_values_same_state(a: Seq<Seq<char>>, b: Seq<Seq<char>>)
    requires
        first_fault(RuntimeModel::fields(), RuntimeModel::rules(), a) is None,
        first_fault(RuntimeModel::fields(), RuntimeModel::rules(), b) is None,
        last_value(a, "boot_id"@) == last_value(b, "boot_id"@),
        last_value(a, "boot_source_tx"@) == last_value(b, "boot_source_tx"@),
        last_value(a, "boot_source_rx"@) == last_value(b, "boot_source_rx"@),
        last_value(a, "current_boot_tx"@) == last_value(b, "current_boot_tx"@),
        last_value(a, "current_boot_rx"@) == last_value(b, "current_boot_rx"@),
        last_value(a, "accumulated_tx"@) == last_value(b, "accumulated_tx"@),
        last_value(a, "accumulated_rx"@) == last_value(b, "accumulated_rx"@),
        last_value(a, "last_reset_month"@) == last_value(b, "last_reset_month"@),
    ensures
        RuntimeModel::read(a) == RuntimeModel::read(b),
{
    let fields = RuntimeModel::fields();
    assert forall|k: int| 0 <= k < fields.len() implies last_value(a, (#[trigger] fields[k]).name@)
        == last_value(b, fields[k].name@) by {
        assert(fields[0].name@ == "boot_id"@);
        assert(fields[1].name@ == "boot_source_tx"@);
        assert(fields[2].name@ == "boot_source_rx"@);
        assert(fields[3].name@ == "current_boot_tx"@);
        assert(fields[4].name@ == "current_boot_rx"@);
        assert(fields[5].name@ == "accumulated_tx"@);
        assert(fields[6].name@ == "accumulated_rx"@);
        assert(fields[7].name@ == "last_reset_month"@);
    }
    lemma_same_values_same_missing(fields, a, b);
}

/// Empty lines, comments and entries under keys that the file format does
/// not know are passed over: wherever such a line is put into a text that
/// reads as a state, the text reads as the same state.
pub proof fn lemma_ignored_line(lines: Seq<Seq<char>>, at: int, extra: Seq<char>)
    requires
        0 <= at <= lines.len(),
        carries_nothing(RuntimeModel::fields(), RuntimeModel::rules(), extra),
    ensures
        RuntimeModel::read(lines.insert(at, extra)) is Ok <==> RuntimeModel::read(lines) is Ok,
        RuntimeModel::read(lines) is Ok ==> RuntimeModel::read(lines.insert(at, extra))
            == RuntimeModel::read(lines),
{
    let fields = RuntimeModel::fields();
    let rules = RuntimeModel::rules();
    let more = lines.insert(at, extra);
    lemma_runtime_fields_known();
    lemma_line_that_carries_nothing(fields, rules, lines, at, extra, "boot_id"@);
    lemma_line_that_carries_nothing(fields, rules, lines, at, extra, "boot_source_tx"@);
    lemma_line_that_carries_nothing(fields, rules, lines, at, extra, "boot_source_rx"@);
    lemma_line_that_carries_nothing(fields, rules, lines, at, extra, "current_boot_tx"@);
    lemma_line_that_carries_nothing(fields, rules, lines, at, extra, "current_boot_rx"@);
    lemma_line_that_carries_nothing(fields, rules, lines, at, extra, "accumulated_tx"@);
    lemma_line_that_carries_nothing(fields, rules, lines, at, extra, "accumulated_rx"@);
    lemma_line_that_carries_nothing(fields, rules, lines, at, extra, "last_reset_month"@);
    if first_fault(fields, rules, lines) is None {
        lemma_same_values_same_state(more, lines);
    }
}

/// The order of the lines does not matter: two texts of the same lines,
/// neither naming a key twice, read as the same state.
pub proof fn lemma_order_insensitive(a: Seq<Seq<char>>, b: Seq<Seq<char>>)
    requires
        a.to_multiset() == b.to_multiset(),
        keys_once(a),
        keys_once(b),
    ensures
        RuntimeModel::read(a) is Ok <==> RuntimeModel::read(b) is Ok,
        RuntimeModel::read(a) is Ok ==> RuntimeModel::read(b) == RuntimeModel::read(a),
{
    let fields = RuntimeModel::fields();
    let rules = RuntimeModel::rules();
    lemma_order_is_immaterial(fields, rules, a, b, "boot_id"@);
    lemma_order_is_immaterial(fields, rules, a, b, "boot_source_tx"@);
    lemma_order_is_immaterial(fields, rules, a, b, "boot_source_rx"@);
    lemma_order_is_immaterial(fields, rules, a, b, "current_boot_tx"@);
    lemma_order_is_immaterial(fields, rules, a, b, "current_boot_rx"@);
    lemma_order_is_immaterial(fields, rules, a, b, "accumulated_tx"@);
    lemma_order_is_immaterial(fields, rules, a, b, "accumulated_rx"@);
    lemma_order_is_immaterial(fields, rules, a, b, "last_reset_month"@);
    if first_fault(fields, rules, a) is None {
        lemma_same_values_same_state(a, b);
    }
}

/// A text that names no value for one of the eight keys does not read as a
/// state, whatever else it holds.
pub proof fn lemma_missing_key_is_an_error(lines: Seq<Seq<char>>, k: int)
    requires
        0 <= k < RuntimeModel::fields().len(),
        last_value(lines, RuntimeModel::fields()[k].name@) is None,
    ensures
        RuntimeModel::read(lines) is Err,
{
    lemma_missing_is_reported(RuntimeModel::fields(), lines, k);
}

fn runtime_schema() -> (r: Vec<Field>)
    ensures
        r@ == RuntimeModel::fields(),
        names_distinct(r@),
{
    let mut r: Vec<Field> = Vec::new();
    r.push(Field { name: "boot_id", kind: ValueKind::Text, required: true });
    r.push(Field { name: "boot_source_tx", kind: ValueKind::U64, required: true });
    r.push(Field { name: "boot_source_rx", kind: ValueKind::U64, required: true });
    r.push(Field { name: "current_boot_tx", kind: ValueKind::U64, required: true });
    r.push(Field { name: "current_boot_rx", kind: ValueKind::U64, required: true });
    r.push(Field { name: "accumulated_tx", kind: ValueKind::U64, required: true });
    r.push(Field { name: "accumulated_rx", kind: ValueKind::U64, required: true });
    r.push(Field { name: "last_reset_month", kind: ValueKind::U8, required: true });
    proof {
        assert(r@ =~= RuntimeModel::fields());
        lemma_runtime_names();
    }
    r
}

impl RuntimeData {
    /// Encode runtime data to key=value format
    pub fn encode(&self) -> (r: String)
        ensures
            r@ == self@.encoded(),
    {
        let mut lines: Vec<String> = Vec::new();
        lines.push(String::from_str("# Komari Monitor Runtime Data"));
        lines.push(
            String::from_str(
                "# This file is automatically managed by the program. Do not modify manually.",
            ),
        );
        lines.push(String::new());
        lines.push(entry("boot_id", self.boot_id.as_str()));
        lines.push(entry("boot_source_tx", decimal_text(self.boot_source_tx).as_str()));
        lines.push(entry("boot_source_rx", decimal_text(self.boot_source_rx).as_str()));
        lines.push(entry("current_boot_tx", decimal_text(self.current_boot_tx).as_str()));
        lines.push(entry("current_boot_rx", decimal_text(self.current_boot_rx).as_str()));
        lines.push(entry("accumulated_tx", decimal_text(self.accumulated_tx).as_str()));
        lines.push(entry("accumulated_rx", decimal_text(self.accumulated_rx).as_str()));
        lines.push(
            entry("last_reset_month", decimal_text(self.last_reset_month as u64).as_str()),
        );
        proof {
            assert(texts(lines@) =~= RuntimeModel::header() + rendered(self@.entries()));
        }
        join_lines(&lines)
    }

    /// Decode runtime data from key=value format
    pub fn decode(content: &str) -> (r: Result<Self, String>)
        ensures
            match r {
                Ok(data) => RuntimeModel::decoded(content@) == Ok::<RuntimeModel, Seq<char>>(data@),
                Err(message) => RuntimeModel::decoded(content@) == Err::<RuntimeModel, Seq<char>>(
                    message@,
                ),
            },
    {
        let chars = to_chars(content);
        let schema = runtime_schema();
        let rules = Rules { style: Style::Quoting, strict: true, closed: false };
        let values = match read_values(chars.as_slice(), schema.as_slice(), rules) {
            Ok(values) => values,
            Err(message) => {
                return Err(message);
            },
        };
        proof {
            let lines = lines_of(content@);
            let fields = RuntimeModel::fields();
            assert(fields[0].required && usable(fields[0], lines));
            assert(fields[1].required && usable(fields[1], lines));
            assert(fields[2].required && usable(fields[2], lines));
            assert(fields[3].required && usable(fields[3], lines));
            assert(fields[4].required && usable(fields[4], lines));
            assert(fields[5].required && usable(fields[5], lines));
            assert(fields[6].required && usable(fields[6], lines));
            assert(fields[7].required && usable(fields[7], lines));
        }
        Ok(
            RuntimeData {
                boot_id: text_at(&values, 0),
                boot_source_tx: unsigned_at(&values, 1, u64::MAX),
                boot_source_rx: unsigned_at(&values, 2, u64::MAX),
                current_boot_tx: unsigned_at(&values, 3, u64::MAX),
                current_boot_rx: unsigned_at(&values, 4, u64::MAX),
                accumulated_tx: unsigned_at(&values, 5, u64::MAX),
                accumulated_rx: unsigned_at(&values, 6, u64::MAX),
                last_reset_month: unsigned_at(&values, 7, 255) as u8,
            },
        )
    }

    /// The state before any traffic was counted, under the given boot and
    /// with the given month as that of the last reset.
    pub fn fresh(boot_id: &str, month: u8) -> (r: Self)
        ensures
            r@ == RuntimeModel::initial(boot_id@, month),
    {
        RuntimeData {
            boot_id: String::from_str(boot_id),
            boot_source_tx: 0,
            boot_source_rx: 0,
            current_boot_tx: 0,
            current_boot_rx: 0,
            accumulated_tx: 0,
            accumulated_rx: 0,
            last_reset_month: month,
        }
    }
}

/// The boot identifier as it is kept: what the system gave, without the
/// whitespace around it.
pub fn normalize_boot_token(raw: &str) -> (r: String)
    ensures
        r@ == trimmed(raw@),
        is_trimmed(r@),
{
    let chars = to_chars(raw);
    proof {
        lemma_trimmed_is_trimmed(raw@);
    }
    to_text(trim(chars.as_slice()))
}

/// What the file of runtime data turned out to hold.
#[derive(Debug, Clone, PartialEq)]
pub enum LoadOutcome {
    /// There is no file, or it is empty: a first run.
    Absent,
    /// The file holds this state.
    Loaded(RuntimeData),
    /// The file cannot be read as a state; the text says why.
    Corrupt(String),
}

/// What a `LoadOutcome` holds, as plain values.
pub enum LoadModel {
    Absent,
    Loaded(RuntimeModel),
    Corrupt(Seq<char>),
}

impl View for LoadOutcome {
    type V = LoadModel;

    open spec fn view(&self) -> LoadModel {
        match self {
            LoadOutcome::Absent => LoadModel::Absent,
            LoadOutcome::Loaded(data) => LoadModel::Loaded(data@),
            LoadOutcome::Corrupt(message) => LoadModel::Corrupt(message@),
        }
    }
}

/// What the content of the file of runtime data amounts to: nothing where
/// the content is empty, else what decoding it gives.
pub open spec fn loaded(content: Seq<char>) -> LoadModel {
    if content.len() == 0 {
        LoadModel::Absent
    } else {
        match RuntimeModel::decoded(content) {
            Ok(state) => LoadModel::Loaded(state),
            Err(message) => LoadModel::Corrupt(message),
        }
    }
}

/// A state that was written to the file is what loading the file gives.
pub proof fn lemma_load_written(state: RuntimeModel)
    requires
        state.storable(),
    ensures
        loaded(state.encoded()) == LoadModel::Loaded(state),
{
    lemma_decode_encode(state);
    let lines = RuntimeModel::header() + rendered(state.entries());
    lemma_join_not_empty(lines, '\n');
}

} // verus!
