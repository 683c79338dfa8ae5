//! The `key=value` text format: one entry per line, blank lines and lines
//! that start with `#` carry nothing, and a later entry for a key replaces
//! an earlier one.
//!
//! A reader is described by a schema (the keys it knows, each with the kind
//! of value it takes) and by rules that say what counts as a fault and how
//! a fault is worded. Scanning stops at the first fault.

use vstd::prelude::*;
use vstd::pervasive::unreached;
use vstd::slice::slice_subrange;
use vstd::string::StringExecFns;
use crate::config::{IpProvider, LogLevel, TrafficMode};
use crate::number::{
    decimal,
    is_real_notation,
    parse_signed,
    parse_unsigned,
    push_decimal,
    read_i64,
    read_unsigned,
    real_notation,
};
use crate::text::{
    eq_ignore_ascii_case,
    equals,
    equals_ignore_ascii_case,
    find,
    find_char,
    is_trimmed,
    is_whitespace,
    join,
    lemma_find_is,
    lemma_trimmed_is_trimmed,
    push_chars,
    split,
    to_text,
    trim,
    trimmed,
};

verus! {

/// What one line of text amounts to.
pub enum Line {
    /// An empty line or a comment.
    Blank,
    /// `key=value`, both trimmed.
    Pair { key: Seq<char>, value: Seq<char> },
    /// Text without a `=`.
    Malformed,
}

/// The meaning of the line `raw`.
pub open spec fn classify(raw: Seq<char>) -> Line {
    let line = trimmed(raw);
    if line.len() == 0 || line[0] == '#' {
        Line::Blank
    } else {
        let i = find(line, '=');
        if 0 <= i < line.len() {
            Line::Pair { key: trimmed(line.take(i)), value: trimmed(line.skip(i + 1)) }
        } else {
            Line::Malformed
        }
    }
}

/// The lines of a text: its segments between line feeds.
pub open spec fn lines_of(text: Seq<char>) -> Seq<Seq<char>> {
    split(text, '\n')
}

/// The line that carries `value` under `key`.
pub open spec fn entry_line(key: Seq<char>, value: Seq<char>) -> Seq<char> {
    key.push('=') + value
}

/// The kinds of value that a key can take.
#[derive(Clone, Copy, Debug)]
pub enum ValueKind {
    /// Any text.
    Text,
    /// A decimal number that fits in 8 bits.
    U8,
    /// A decimal number that fits in 32 bits.
    U32,
    /// A decimal number that fits in 64 bits.
    U64,
    /// A signed decimal number that fits in 64 bits.
    I64,
    /// `true` or `false`.
    Flag,
    /// `true`, `1` or `yes`, or `false`, `0` or `no`, in capitals or small letters.
    Switch,
    /// A real number in decimal or scientific notation.
    Real,
    /// The name of an address provider.
    Provider,
    /// The name of a log level.
    Level,
    /// The name of a traffic mode.
    Mode,
}

/// A key of a schema, the kind of value it takes, and whether a text
/// without a usable value for it is incomplete.
pub struct Field {
    pub name: &'static str,
    pub kind: ValueKind,
    pub required: bool,
}

/// How faults are worded.
#[derive(Clone, Copy, Debug)]
pub enum Style {
    /// The message quotes the offending text.
    Quoting,
    /// The message starts with the line number.
    Numbered,
    /// As `Numbered`, with a shorter wording for a missing key.
    Terse,
}

/// What a reader treats as a fault.
#[derive(Clone, Copy, Debug)]
pub struct Rules {
    pub style: Style,
    /// A line without `=` and a value of the wrong kind are faults; when
    /// false, such lines and values are passed over.
    pub strict: bool,
    /// A key outside the schema is a fault; when false, it is passed over.
    pub closed: bool,
}

/// Whether `value` is of the kind `kind`.
pub open spec fn accepts(kind: ValueKind, value: Seq<char>) -> bool {
    match kind {
        ValueKind::Text => true,
        ValueKind::U8 => parse_unsigned(value, u8::MAX as nat) is Some,
        ValueKind::U32 => parse_unsigned(value, u32::MAX as nat) is Some,
        ValueKind::U64 => parse_unsigned(value, u64::MAX as nat) is Some,
        ValueKind::I64 => parse_signed(value, i64::MIN as int, i64::MAX as int) is Some,
        ValueKind::Flag => value == "true"@ || value == "false"@,
        ValueKind::Switch => switch_value(value) is Some,
        ValueKind::Real => is_real_notation(value),
        ValueKind::Provider => IpProvider::named(value) is Some,
        ValueKind::Level => LogLevel::named(value) is Some,
        ValueKind::Mode => TrafficMode::named(value) is Some,
    }
}

/// The kinds whose values are names out of a fixed list.
pub open spec fn is_name_kind(kind: ValueKind) -> bool {
    kind is Provider || kind is Level || kind is Mode
}

/// What a switch is set to by `value`.
pub open spec fn switch_value(value: Seq<char>) -> Option<bool> {
    if eq_ignore_ascii_case(value, "true"@) || eq_ignore_ascii_case(value, "1"@)
        || eq_ignore_ascii_case(value, "yes"@) {
        Some(true)
    } else if eq_ignore_ascii_case(value, "false"@) || eq_ignore_ascii_case(value, "0"@)
        || eq_ignore_ascii_case(value, "no"@) {
        Some(false)
    } else {
        None
    }
}

/// The name of a kind, as fault messages give it.
pub open spec fn kind_label(kind: ValueKind) -> Seq<char> {
    match kind {
        ValueKind::Text => "text"@,
        ValueKind::U8 => "u8"@,
        ValueKind::U32 => "u32"@,
        ValueKind::U64 => "u64"@,
        ValueKind::I64 => "i64"@,
        ValueKind::Flag => "bool"@,
        ValueKind::Switch => "boolean"@,
        ValueKind::Real => "f64"@,
        ValueKind::Provider => "ip_provider"@,
        ValueKind::Level => "log_level"@,
        ValueKind::Mode => "traffic_mode"@,
    }
}

/// The kind that the schema gives to `key`, if it knows the key.
pub open spec fn kind_of(schema: Seq<Field>, key: Seq<char>) -> Option<ValueKind>
    decreases schema.len(),
{
    if schema.len() == 0 {
        None
    } else if schema[0].name@ == key {
        Some(schema[0].kind)
    } else {
        kind_of(schema.skip(1), key)
    }
}

/// No two fields of the schema share a name.
pub open spec fn names_distinct(schema: Seq<Field>) -> bool {
    forall|i: int, j: int|
        0 <= i < j < schema.len() ==> (#[trigger] schema[i]).name@ != (#[trigger] schema[j]).name@
}

/// The message for line `number`, which holds no `=`; `line` is its trimmed text.
pub open spec fn malformed_text(style: Style, number: nat, line: Seq<char>) -> Seq<char> {
    match style {
        Style::Quoting => "Invalid line "@ + decimal(number) + " (expected key=value format): "@
            + line,
        _ => "Line "@ + decimal(number) + ": Format error (expected key=value)"@,
    }
}

/// The message for a value that is not of the kind its key takes.
pub open spec fn invalid_text(
    style: Style,
    number: nat,
    kind: ValueKind,
    key: Seq<char>,
    value: Seq<char>,
) -> Seq<char> {
    match style {
        Style::Quoting => if is_name_kind(kind) {
            "Invalid "@ + kind_label(kind) + " value: "@ + value
        } else {
            "Invalid "@ + kind_label(kind) + " value for "@ + key + ": "@ + value
        },
        _ => "Line "@ + decimal(number) + ": Invalid "@ + kind_label(kind) + " for key '"@ + key
            + "'"@,
    }
}

/// The message for a required key that has no usable value.
pub open spec fn missing_text(style: Style, name: Seq<char>) -> Seq<char> {
    match style {
        Style::Quoting => "Missing required parameter: "@ + name,
        Style::Numbered => "Missing field: "@ + name,
        Style::Terse => "Missing "@ + name + " in config"@,
    }
}

/// The message for a key outside a closed schema.
pub open spec fn unknown_text(number: nat, key: Seq<char>) -> Seq<char> {
    "Unknown configuration key at line "@ + decimal(number) + ": "@ + key
}

/// The message that line `number` gives rise to, if the line is a fault.
pub open spec fn line_fault(schema: Seq<Field>, rules: Rules, raw: Seq<char>, number: nat) -> Option<
    Seq<char>,
> {
    match classify(raw) {
        Line::Blank => None,
        Line::Malformed => if rules.strict {
            Some(malformed_text(rules.style, number, trimmed(raw)))
        } else {
            None
        },
        Line::Pair { key, value } => match kind_of(schema, key) {
            None => if rules.closed {
                Some(unknown_text(number, key))
            } else {
                None
            },
            Some(kind) => if rules.strict && !accepts(kind, value) {
                Some(invalid_text(rules.style, number, kind, key, value))
            } else {
                None
            },
        },
    }
}

/// The message of the first faulty line, lines being numbered from 1.
pub open spec fn first_fault(schema: Seq<Field>, rules: Rules, lines: Seq<Seq<char>>) -> Option<
    Seq<char>,
>
    decreases lines.len(),
{
    if lines.len() == 0 {
        None
    } else {
        match first_fault(schema, rules, lines.drop_last()) {
            Some(message) => Some(message),
            None => line_fault(schema, rules, lines.last(), lines.len()),
        }
    }
}

/// The value of the last line that names `key`.
pub open spec fn last_value(lines: Seq<Seq<char>>, key: Seq<char>) -> Option<Seq<char>>
    decreases lines.len(),
{
    if lines.len() == 0 {
        None
    } else {
        match classify(lines.last()) {
            Line::Pair { key: k, value } if k == key => Some(value),
            _ => last_value(lines.drop_last(), key),
        }
    }
}

/// Whether the lines give `field` a value of its kind.
pub open spec fn usable(field: Field, lines: Seq<Seq<char>>) -> bool {
    last_value(lines, field.name@) matches Some(value) && accepts(field.kind, value)
}

/// The name of the first required field that the lines give no usable value.
pub open spec fn first_missing(schema: Seq<Field>, lines: Seq<Seq<char>>) -> Option<Seq<char>>
    decreases schema.len(),
{
    if schema.len() == 0 {
        None
    } else if schema[0].required && !usable(schema[0], lines) {
        Some(schema[0].name@)
    } else {
        first_missing(schema.skip(1), lines)
    }
}

/// The message with which reading the lines fails, if it fails: that of
/// the first faulty line, or else that of the first missing key.
pub open spec fn reading_error(schema: Seq<Field>, rules: Rules, lines: Seq<Seq<char>>) -> Option<
    Seq<char>,
> {
    match first_fault(schema, rules, lines) {
        Some(message) => Some(message),
        None => match first_missing(schema, lines) {
            Some(name) => Some(missing_text(rules.style, name)),
            None => None,
        },
    }
}

/// Whether a line is a fault under the rules, wherever it stands.
pub open spec fn is_faulty(schema: Seq<Field>, rules: Rules, raw: Seq<char>) -> bool {
    line_fault(schema, rules, raw, 0) is Some
}

/// Whether a line carries nothing for the reader: an empty line, a
/// comment, or an entry or a text that the rules pass over.
pub open spec fn carries_nothing(schema: Seq<Field>, rules: Rules, raw: Seq<char>) -> bool {
    match classify(raw) {
        Line::Blank => true,
        Line::Malformed => !rules.strict,
        Line::Pair { key, value } => kind_of(schema, key) is None && !rules.closed,
    }
}

/// No key is named by two lines.
pub open spec fn keys_once(lines: Seq<Seq<char>>) -> bool {
    forall|i: int, j: int|
        0 <= i < j < lines.len() ==> !(classify(#[trigger] lines[i]) matches Line::Pair {
            key: first,
            ..
        } && classify(#[trigger] lines[j]) matches Line::Pair { key: second, .. } && first
            == second)
}

/// The lines that carry the entries, in order.
pub open spec fn rendered(entries: Seq<(Seq<char>, Seq<char>)>) -> Seq<Seq<char>> {
    Seq::new(entries.len(), |i: int| entry_line(entries[i].0, entries[i].1))
}

/// Entries that are read back as they were written: proper keys, no key
/// twice, and trimmed values.
pub open spec fn entries_proper(entries: Seq<(Seq<char>, Seq<char>)>) -> bool {
    &&& forall|i: int|
        0 <= i < entries.len() ==> is_key((#[trigger] entries[i]).0) && is_trimmed(entries[i].1)
    &&& forall|i: int, j: int|
        0 <= i < j < entries.len() ==> (#[trigger] entries[i]).0 != (#[trigger] entries[j]).0
}

/// Lines that carry nothing.
pub open spec fn all_blank(lines: Seq<Seq<char>>) -> bool {
    forall|i: int| 0 <= i < lines.len() ==> classify(#[trigger] lines[i]) is Blank
}

/// The text of an optional run of characters.
pub open spec fn text_of(v: Option<&[char]>) -> Option<Seq<char>> {
    match v {
        Some(s) => Some(s@),
        None => None,
    }
}

/// A key as it can stand in an entry: not empty, trimmed, no `=`, no line
/// feed, and not the start of a comment.
pub open spec fn is_key(key: Seq<char>) -> bool {
    &&& key.len() > 0
    &&& is_trimmed(key)
    &&& key[0] != '#'
    &&& forall|j: int| 0 <= j < key.len() ==> key[j] != '=' && key[j] != '\n'
}

/// A value that an entry gives back as it was written: trimmed and on one line.
pub open spec fn is_value(value: Seq<char>) -> bool {
    &&& is_trimmed(value)
    &&& forall|j: int| 0 <= j < value.len() ==> value[j] != '\n'
}

/// An entry that is written down is read back as it was.
pub proof fn lemma_classify_entry(key: Seq<char>, value: Seq<char>)
    requires
        is_key(key),
        is_trimmed(value),
    ensures
        classify(entry_line(key, value)) == (Line::Pair { key, value }),
{
    let line = entry_line(key, value);
    assert(line[0] == key[0]);
    assert(!is_whitespace('='));
    if value.len() > 0 {
        assert(line.last() == value.last());
    } else {
        assert(line.last() == '=');
    }
    assert(trimmed(line) == line);
    lemma_find_is(line, '=', key.len() as int);
    assert(line.take(key.len() as int) =~= key);
    assert(line.skip(key.len() as int + 1) =~= value);
}

/// A fault, once found, stays the first fault however many lines follow.
pub proof fn lemma_first_fault_prefix(
    schema: Seq<Field>,
    rules: Rules,
    lines: Seq<Seq<char>>,
    k: int,
)
    requires
        0 <= k <= lines.len(),
        first_fault(schema, rules, lines.take(k)) is Some,
    ensures
        first_fault(schema, rules, lines) == first_fault(schema, rules, lines.take(k)),
    decreases lines.len(),
{
    if k == lines.len() {
        assert(lines.take(k) =~= lines);
    } else {
        assert(lines.drop_last().take(k) =~= lines.take(k));
        lemma_first_fault_prefix(schema, rules, lines.drop_last(), k);
    }
}

/// Under strict rules, a text without fault holds only values of the kinds
/// that the schema asks for.
pub proof fn lemma_values_accepted(
    schema: Seq<Field>,
    rules: Rules,
    lines: Seq<Seq<char>>,
    key: Seq<char>,
)
    requires
        rules.strict,
        first_fault(schema, rules, lines) is None,
        last_value(lines, key) is Some,
        kind_of(schema, key) is Some,
    ensures
        accepts(kind_of(schema, key)->0, last_value(lines, key)->0),
    decreases lines.len(),
{
    if lines.len() > 0 {
        match classify(lines.last()) {
            Line::Pair { key: k, value } if k == key => {},
            _ => {
                lemma_values_accepted(schema, rules, lines.drop_last(), key);
            },
        }
    }
}

pub proof fn lemma_kind_of_field(schema: Seq<Field>, k: int)
    requires
        names_distinct(schema),
        0 <= k < schema.len(),
    ensures
        kind_of(schema, schema[k].name@) == Some(schema[k].kind),
    decreases k,
{
    if k > 0 {
        let rest = schema.skip(1);
        assert(schema[0].name@ != schema[k].name@);
        assert forall|i: int, j: int| 0 <= i < j < rest.len() implies (#[trigger] rest[i]).name@ != (
        #[trigger] rest[j]).name@ by {
            assert(rest[i] == schema[i + 1]);
            assert(rest[j] == schema[j + 1]);
        }
        assert(rest[k - 1] == schema[k]);
        lemma_kind_of_field(rest, k - 1);
    }
}

/// One line as the reader sees it, its parts borrowed from the text.
pub enum Entry<'a> {
    Blank,
    Pair { key: &'a [char], value: &'a [char] },
    Malformed { line: &'a [char] },
}

impl<'a> Entry<'a> {
    pub open spec fn view(&self) -> Line {
        match *self {
            Entry::Blank => Line::Blank,
            Entry::Pair { key, value } => Line::Pair { key: key@, value: value@ },
            Entry::Malformed { line } => Line::Malformed,
        }
    }
}

/// Reads one line.
pub fn parse_line<'a>(raw: &'a [char]) -> (r: Entry<'a>)
    ensures
        r.view() == classify(raw@),
        r matches Entry::Malformed { line } ==> line@ == trimmed(raw@) && line@.len() > 0,
{
    let line = trim(raw);
    if line.len() == 0 || line[0] == '#' {
        return Entry::Blank;
    }
    let i = find_char(line, '=');
    if i < line.len() {
        let key = trim(slice_subrange(line, 0, i));
        let value = trim(slice_subrange(line, i + 1, line.len()));
        proof {
            assert(line@.subrange(0, i as int) =~= line@.take(i as int));
            assert(line@.subrange(i + 1, line@.len() as int) =~= line@.skip(i + 1));
        }
        Entry::Pair { key, value }
    } else {
        Entry::Malformed { line }
    }
}

/// Whether `value` is of the kind `kind`.
pub fn check_value(kind: ValueKind, value: &[char]) -> (r: bool)
    ensures
        r == accepts(kind, value@),
{
    match kind {
        ValueKind::Text => true,
        ValueKind::U8 => read_unsigned(value, 255).is_some(),
        ValueKind::U32 => read_unsigned(value, 4294967295).is_some(),
        ValueKind::U64 => read_unsigned(value, 18446744073709551615).is_some(),
        ValueKind::I64 => read_i64(value).is_some(),
        ValueKind::Flag => equals(value, "true") || equals(value, "false"),
        ValueKind::Switch => read_switch(value).is_some(),
        ValueKind::Real => real_notation(value),
        ValueKind::Provider => IpProvider::from_chars(value).is_some(),
        ValueKind::Level => LogLevel::from_chars(value).is_some(),
        ValueKind::Mode => TrafficMode::from_chars(value).is_some(),
    }
}

/// Reads what a switch is set to.
pub fn read_switch(value: &[char]) -> (r: Option<bool>)
    ensures
        r == switch_value(value@),
{
    if equals_ignore_ascii_case(value, "true") || equals_ignore_ascii_case(value, "1")
        || equals_ignore_ascii_case(value, "yes") {
        Some(true)
    } else if equals_ignore_ascii_case(value, "false") || equals_ignore_ascii_case(value, "0")
        || equals_ignore_ascii_case(value, "no") {
        Some(false)
    } else {
        None
    }
}

fn kind_name(kind: ValueKind) -> (r: &'static str)
    ensures
        r@ == kind_label(kind),
{
    match kind {
        ValueKind::Text => "text",
        ValueKind::U8 => "u8",
        ValueKind::U32 => "u32",
        ValueKind::U64 => "u64",
        ValueKind::I64 => "i64",
        ValueKind::Flag => "bool",
        ValueKind::Switch => "boolean",
        ValueKind::Real => "f64",
        ValueKind::Provider => "ip_provider",
        ValueKind::Level => "log_level",
        ValueKind::Mode => "traffic_mode",
    }
}

fn malformed_message(style: Style, number: usize, line: &[char]) -> (r: String)
    ensures
        r@ == malformed_text(style, number as nat, line@),
{
    match style {
        Style::Quoting => {
            let mut r = String::from_str("Invalid line ");
            push_decimal(&mut r, number as u64);
            r.append(" (expected key=value format): ");
            push_chars(&mut r, line);
            r
        },
        _ => {
            let mut r = String::from_str("Line ");
            push_decimal(&mut r, number as u64);
            r.append(": Format error (expected key=value)");
            r
        },
    }
}

/// The message for a value that is not of the kind its key takes.
pub fn invalid_message(style: Style, number: usize, kind: ValueKind, key: &[char], value: &[char]) -> (r:
    String)
    ensures
        r@ == invalid_text(style, number as nat, kind, key@, value@),
{
    match style {
        Style::Quoting => {
            let mut r = String::from_str("Invalid ");
            r.append(kind_name(kind));
            match kind {
                ValueKind::Provider | ValueKind::Level | ValueKind::Mode => {
                    r.append(" value: ");
                },
                _ => {
                    r.append(" value for ");
                    push_chars(&mut r, key);
                    r.append(": ");
                },
            }
            push_chars(&mut r, value);
            r
        },
        _ => {
            let mut r = String::from_str("Line ");
            push_decimal(&mut r, number as u64);
            r.append(": Invalid ");
            r.append(kind_name(kind));
            r.append(" for key '");
            push_chars(&mut r, key);
            r.append("'");
            r
        },
    }
}

/// The message for a required key that has no usable value.
pub fn missing_message(style: Style, name: &str) -> (r: String)
    ensures
        r@ == missing_text(style, name@),
{
    match style {
        Style::Quoting => {
            let mut r = String::from_str("Missing required parameter: ");
            r.append(name);
            r
        },
        Style::Numbered => {
            let mut r = String::from_str("Missing field: ");
            r.append(name);
            r
        },
        Style::Terse => {
            let mut r = String::from_str("Missing ");
            r.append(name);
            r.append(" in config");
            r
        },
    }
}

fn unknown_message(number: usize, key: &[char]) -> (r: String)
    ensures
        r@ == unknown_text(number as nat, key@),
{
    let mut r = String::from_str("Unknown configuration key at line ");
    push_decimal(&mut r, number as u64);
    r.append(": ");
    push_chars(&mut r, key);
    r
}

/// The place of `key` in the schema.
fn lookup(schema: &[Field], key: &[char]) -> (r: Option<usize>)
    ensures
        match r {
            Some(k) => k < schema@.len() && schema@[k as int].name@ == key@ && kind_of(
                schema@,
                key@,
            ) == Some(schema@[k as int].kind),
            None => kind_of(schema@, key@) is None,
        },
{
    let mut k: usize = 0;
    assert(schema@.skip(0) =~= schema@);
    while k < schema.len()
        invariant
            k <= schema.len(),
            kind_of(schema@, key@) == kind_of(schema@.skip(k as int), key@),
        decreases schema.len() - k,
    {
        let ghost rest = schema@.skip(k as int);
        proof {
            assert(rest[0] == schema@[k as int]);
            assert(rest.skip(1) =~= schema@.skip(k + 1));
        }
        if equals(key, schema[k].name) {
            return Some(k);
        }
        k += 1;
    }
    None
}

/// Scans `text` line by line.
///
/// On success the result holds, for each field of the schema and in its
/// order, the value of the last line that names the field. On a fault the
/// result is the message of the first faulty line.
pub fn scan<'a>(text: &'a [char], schema: &[Field], rules: Rules) -> (r: Result<
    Vec<Option<&'a [char]>>,
    String,
>)
    requires
        names_distinct(schema@),
    ensures
        match r {
            Ok(values) => {
                &&& first_fault(schema@, rules, lines_of(text@)) is None
                &&& values@.len() == schema@.len()
                &&& forall|k: int|
                    0 <= k < schema@.len() ==> text_of(#[trigger] values@[k]) == last_value(
                        lines_of(text@),
                        schema@[k].name@,
                    )
            },
            Err(message) => first_fault(schema@, rules, lines_of(text@)) == Some(message@),
        },
{
    let mut values: Vec<Option<&'a [char]>> = Vec::new();
    while values.len() < schema.len()
        invariant
            values@.len() <= schema@.len(),
            forall|k: int| 0 <= k < values@.len() ==> (#[trigger] values@[k]) is None,
        decreases schema.len() - values.len(),
    {
        values.push(None);
    }
    let ghost all = lines_of(text@);
    let ghost mut done: Seq<Seq<char>> = Seq::empty();
    let mut pos: usize = 0;
    let mut number: usize = 0;
    let mut more = true;
    proof {
        assert(text@.skip(0) =~= text@);
        assert(all =~= done + split(text@.skip(0), '\n'));
    }
    while more
        invariant
            names_distinct(schema@),
            all == lines_of(text@),
            pos <= text@.len(),
            number <= pos,
            more ==> number == done.len(),
            more ==> all == done + split(text@.skip(pos as int), '\n'),
            !more ==> all == done,
            first_fault(schema@, rules, done) is None,
            values@.len() == schema@.len(),
            forall|k: int|
                0 <= k < schema@.len() ==> text_of(#[trigger] values@[k]) == last_value(
                    done,
                    schema@[k].name@,
                ),
        decreases text@.len() - pos + (if more { 1int } else { 0int }),
    {
        let rest = slice_subrange(text, pos, text.len());
        let n = find_char(rest, '\n');
        let raw = slice_subrange(rest, 0, n);
        let ghost next = done.push(raw@);
        proof {
            assert(rest@ =~= text@.skip(pos as int));
            assert(raw@ =~= rest@.take(n as int));
            assert(next.drop_last() =~= done);
            assert(next.last() == raw@);
            if n < rest@.len() {
                assert(rest@.skip(n + 1) =~= text@.skip(pos + n + 1));
                assert(all =~= next + split(text@.skip(pos + n + 1), '\n'));
            } else {
                assert(raw@ =~= rest@);
                assert(all =~= next);
            }
            assert(all.take(next.len() as int) =~= next);
        }
        match parse_line(raw) {
            Entry::Blank => {},
            Entry::Malformed { line } => {
                if rules.strict {
                    proof {
                        lemma_trimmed_is_trimmed(raw@);
                        lemma_first_fault_prefix(schema@, rules, all, next.len() as int);
                    }
                    return Err(malformed_message(rules.style, number + 1, line));
                }
            },
            Entry::Pair { key, value } => {
                match lookup(schema, key) {
                    None => {
                        if rules.closed {
                            proof {
                                lemma_pair_not_empty(raw@);
                                lemma_first_fault_prefix(schema@, rules, all, next.len() as int);
                            }
                            return Err(unknown_message(number + 1, key));
                        }
                        proof {
                            assert forall|k: int| 0 <= k < schema@.len() implies schema@[k].name@
                                != key@ by {
                                if schema@[k].name@ == key@ {
                                    lemma_kind_of_field(schema@, k);
                                }
                            }
                        }
                    },
                    Some(k) => {
                        let kind = schema[k].kind;
                        if rules.strict && !check_value(kind, value) {
                            proof {
                                lemma_pair_not_empty(raw@);
                                lemma_first_fault_prefix(schema@, rules, all, next.len() as int);
                            }
                            return Err(invalid_message(rules.style, number + 1, kind, key, value));
                        }
                        values[k] = Some(value);
                    },
                }
            },
        }
        proof {
            done = next;
        }
        if n < rest.len() {
            pos = pos + n + 1;
            number = number + 1;
        } else {
            more = false;
        }
    }
    Ok(values)
}

proof fn lemma_pair_not_empty(raw: Seq<char>)
    requires
        classify(raw) is Pair,
    ensures
        raw.len() > 0,
{
    lemma_trimmed_is_trimmed(raw);
}

/// Reads `text` against the schema.
///
/// On success the result holds, for each field of the schema and in its
/// order, the value of the last line that names the field; every required
/// field then has a value of its kind. Otherwise the result is the message
/// that `reading_error` gives.
pub fn read_values<'a>(text: &'a [char], schema: &[Field], rules: Rules) -> (r: Result<
    Vec<Option<&'a [char]>>,
    String,
>)
    requires
        names_distinct(schema@),
    ensures
        match r {
            Ok(values) => {
                &&& reading_error(schema@, rules, lines_of(text@)) is None
                &&& values@.len() == schema@.len()
                &&& forall|k: int|
                    0 <= k < schema@.len() ==> text_of(#[trigger] values@[k]) == last_value(
                        lines_of(text@),
                        schema@[k].name@,
                    )
                &&& forall|k: int|
                    0 <= k < schema@.len() && (#[trigger] schema@[k]).required ==> usable(
                        schema@[k],
                        lines_of(text@),
                    )
                &&& rules.strict ==> forall|k: int|
                    0 <= k < schema@.len() && last_value(
                        lines_of(text@),
                        (#[trigger] schema@[k]).name@,
                    ) is Some ==> usable(schema@[k], lines_of(text@))
            },
            Err(message) => reading_error(schema@, rules, lines_of(text@)) == Some(message@),
        },
{
    let values = match scan(text, schema, rules) {
        Ok(values) => values,
        Err(message) => {
            return Err(message);
        },
    };
    proof {
        if rules.strict {
            assert forall|k: int|
                0 <= k < schema@.len() && last_value(
                    lines_of(text@),
                    (#[trigger] schema@[k]).name@,
                ) is Some implies usable(schema@[k], lines_of(text@)) by {
                lemma_kind_of_field(schema@, k);
                lemma_values_accepted(schema@, rules, lines_of(text@), schema@[k].name@);
            }
        }
    }
    let ghost lines = lines_of(text@);
    let mut k: usize = 0;
    assert(schema@.skip(0) =~= schema@);
    while k < schema.len()
        invariant
            k <= schema.len(),
            values@.len() == schema@.len(),
            lines == lines_of(text@),
            first_fault(schema@, rules, lines) is None,
            first_missing(schema@, lines) == first_missing(schema@.skip(k as int), lines),
            forall|j: int|
                0 <= j < schema@.len() ==> text_of(#[trigger] values@[j]) == last_value(
                    lines,
                    schema@[j].name@,
                ),
            forall|j: int|
                0 <= j < k && (#[trigger] schema@[j]).required ==> usable(schema@[j], lines),
        decreases schema.len() - k,
    {
        let ghost rest = schema@.skip(k as int);
        proof {
            assert(rest[0] == schema@[k as int]);
            assert(rest.skip(1) =~= schema@.skip(k + 1));
        }
        if schema[k].required {
            let present = match values[k] {
                Some(value) => check_value(schema[k].kind, value),
                None => false,
            };
            proof {
                assert(text_of(values@[k as int]) == last_value(lines, schema@[k as int].name@));
                assert(present == usable(schema@[k as int], lines));
            }
            if !present {
                return Err(missing_message(rules.style, schema[k].name));
            }
        }
        k += 1;
    }
    Ok(values)
}

/// The text held at place `k`.
pub(crate) fn text_at(values: &Vec<Option<&[char]>>, k: usize) -> (r: String)
    requires
        k < values@.len(),
        values@[k as int] is Some,
    ensures
        r@ == values@[k as int]->0@,
{
    match values[k] {
        Some(value) => to_text(value),
        None => unreached(),
    }
}

/// The unsigned number held at place `k`.
pub(crate) fn unsigned_at(values: &Vec<Option<&[char]>>, k: usize, max: u64) -> (r: u64)
    requires
        k < values@.len(),
        values@[k as int] is Some,
        parse_unsigned(values@[k as int]->0@, max as nat) is Some,
    ensures
        r == parse_unsigned(values@[k as int]->0@, max as nat)->0,
        r <= max,
{
    match values[k] {
        Some(value) => match read_unsigned(value, max) {
            Some(n) => n,
            None => unreached(),
        },
        None => unreached(),
    }
}

/// The signed number held at place `k`.
pub(crate) fn signed_at(values: &Vec<Option<&[char]>>, k: usize) -> (r: i64)
    requires
        k < values@.len(),
        values@[k as int] is Some,
        parse_signed(values@[k as int]->0@, i64::MIN as int, i64::MAX as int) is Some,
    ensures
        r == parse_signed(values@[k as int]->0@, i64::MIN as int, i64::MAX as int)->0,
{
    match values[k] {
        Some(value) => match read_i64(value) {
            Some(n) => n,
            None => unreached(),
        },
        None => unreached(),
    }
}

/// The flag held at place `k`.
pub(crate) fn flag_at(values: &Vec<Option<&[char]>>, k: usize) -> (r: bool)
    requires
        k < values@.len(),
        values@[k as int] is Some,
        accepts(ValueKind::Flag, values@[k as int]->0@),
    ensures
        r == (values@[k as int]->0@ == "true"@),
{
    match values[k] {
        Some(value) => equals(value, "true"),
        None => unreached(),
    }
}

/// What the switch held at place `k` is set to.
pub(crate) fn switch_at(values: &Vec<Option<&[char]>>, k: usize) -> (r: bool)
    requires
        k < values@.len(),
        values@[k as int] is Some,
        switch_value(values@[k as int]->0@) is Some,
    ensures
        r == switch_value(values@[k as int]->0@)->0,
{
    match values[k] {
        Some(value) => match read_switch(value) {
            Some(on) => on,
            None => unreached(),
        },
        None => unreached(),
    }
}

/// The line that carries `value` under `key`.
pub fn entry(key: &str, value: &str) -> (r: String)
    ensures
        r@ == entry_line(key@, value@),
{
    let mut r = String::from_str(key);
    r.push('=');
    r.append(value);
    r
}

/// The texts of a list of lines.
pub open spec fn texts(lines: Seq<String>) -> Seq<Seq<char>> {
    Seq::new(lines.len(), |i: int| lines[i]@)
}

/// Writes the lines one below the other, with a line feed between
/// neighbours and none at the end.
pub fn join_lines(lines: &Vec<String>) -> (r: String)
    ensures
        r@ == join(texts(lines@), '\n'),
{
    let mut r = String::new();
    let mut i: usize = 0;
    while i < lines.len()
        invariant
            i <= lines.len(),
            r@ == join(texts(lines@).take(i as int), '\n'),
        decreases lines.len() - i,
    {
        let ghost before = texts(lines@).take(i as int);
        let ghost after = texts(lines@).take(i + 1);
        proof {
            assert(after.drop_last() =~= before);
            assert(after.last() == lines@[i as int]@);
        }
        if i > 0 {
            r.push('\n');
        }
        r.append(lines[i].as_str());
        proof {
            if i == 0 {
                assert(Seq::<char>::empty() + lines@[0]@ =~= lines@[0]@);
            }
        }
        i += 1;
    }
    proof {
        assert(texts(lines@).take(lines@.len() as int) =~= texts(lines@));
    }
    r
}

/// Each entry that was written is found again under its key.
pub proof fn lemma_entry_value(
    head: Seq<Seq<char>>,
    entries: Seq<(Seq<char>, Seq<char>)>,
    i: int,
)
    requires
        entries_proper(entries),
        0 <= i < entries.len(),
    ensures
        last_value(head + rendered(entries), entries[i].0) == Some(entries[i].1),
    decreases entries.len(),
{
    let lines = head + rendered(entries);
    let last = entries.last();
    assert(lines.last() == entry_line(last.0, last.1));
    lemma_classify_entry(last.0, last.1);
    if i < entries.len() - 1 {
        let front = entries.drop_last();
        assert(lines.drop_last() =~= head + rendered(front));
        assert(front[i] == entries[i]);
        assert(entries_proper(front)) by {
            assert forall|a: int| 0 <= a < front.len() implies is_key((#[trigger] front[a]).0)
                && is_trimmed(front[a].1) by {
                assert(front[a] == entries[a]);
            }
            assert forall|a: int, b: int| 0 <= a < b < front.len() implies (#[trigger] front[a]).0
                != (#[trigger] front[b]).0 by {
                assert(front[a] == entries[a]);
                assert(front[b] == entries[b]);
            }
        }
        lemma_entry_value(head, front, i);
    }
}

/// A key that no entry carries has no value.
pub proof fn lemma_absent_value(
    head: Seq<Seq<char>>,
    entries: Seq<(Seq<char>, Seq<char>)>,
    key: Seq<char>,
)
    requires
        all_blank(head),
        entries_proper(entries),
        forall|i: int| 0 <= i < entries.len() ==> (#[trigger] entries[i]).0 != key,
    ensures
        last_value(head + rendered(entries), key) is None,
    decreases entries.len(), head.len(),
{
    let lines = head + rendered(entries);
    if entries.len() > 0 {
        let last = entries.last();
        let front = entries.drop_last();
        assert(lines.last() == entry_line(last.0, last.1));
        lemma_classify_entry(last.0, last.1);
        assert(lines.drop_last() =~= head + rendered(front));
        assert(entries_proper(front)) by {
            assert forall|a: int| 0 <= a < front.len() implies is_key((#[trigger] front[a]).0)
                && is_trimmed(front[a].1) by {
                assert(front[a] == entries[a]);
            }
            assert forall|a: int, b: int| 0 <= a < b < front.len() implies (#[trigger] front[a]).0
                != (#[trigger] front[b]).0 by {
                assert(front[a] == entries[a]);
                assert(front[b] == entries[b]);
            }
        }
        assert forall|a: int| 0 <= a < front.len() implies (#[trigger] front[a]).0 != key by {
            assert(front[a] == entries[a]);
        }
        lemma_absent_value(head, front, key);
    } else if head.len() > 0 {
        assert(lines =~= head);
        let front = head.drop_last();
        assert(classify(head.last()) is Blank);
        assert(all_blank(front)) by {
            assert forall|a: int| 0 <= a < front.len() implies classify(#[trigger] front[a])
                is Blank by {
                assert(front[a] == head[a]);
            }
        }
        assert(front + rendered(entries) =~= front);
        lemma_absent_value(front, entries, key);
    } else {
        assert(lines =~= Seq::<Seq<char>>::empty());
    }
}

/// Entries whose keys the schema knows and whose values are of the kinds it
/// asks for are read without fault.
pub proof fn lemma_no_fault(
    schema: Seq<Field>,
    rules: Rules,
    head: Seq<Seq<char>>,
    entries: Seq<(Seq<char>, Seq<char>)>,
)
    requires
        all_blank(head),
        entries_proper(entries),
        forall|i: int|
            0 <= i < entries.len() ==> (kind_of(schema, (#[trigger] entries[i]).0) matches Some(
                kind,
            ) && accepts(kind, entries[i].1)),
    ensures
        first_fault(schema, rules, head + rendered(entries)) is None,
    decreases entries.len(), head.len(),
{
    let lines = head + rendered(entries);
    if entries.len() > 0 {
        let last = entries.last();
        let front = entries.drop_last();
        assert(lines.last() == entry_line(last.0, last.1));
        lemma_classify_entry(last.0, last.1);
        assert(lines.drop_last() =~= head + rendered(front));
        assert(entries_proper(front)) by {
            assert forall|a: int| 0 <= a < front.len() implies is_key((#[trigger] front[a]).0)
                && is_trimmed(front[a].1) by {
                assert(front[a] == entries[a]);
            }
            assert forall|a: int, b: int| 0 <= a < b < front.len() implies (#[trigger] front[a]).0
                != (#[trigger] front[b]).0 by {
                assert(front[a] == entries[a]);
                assert(front[b] == entries[b]);
            }
        }
        assert forall|a: int| 0 <= a < front.len() implies (kind_of(
            schema,
            (#[trigger] front[a]).0,
        ) matches Some(kind) && accepts(kind, front[a].1)) by {
            assert(front[a] == entries[a]);
        }
        lemma_no_fault(schema, rules, head, front);
    } else if head.len() > 0 {
        assert(lines =~= head);
        let front = head.drop_last();
        assert(classify(head.last()) is Blank);
        assert(all_blank(front)) by {
            assert forall|a: int| 0 <= a < front.len() implies classify(#[trigger] front[a])
                is Blank by {
                assert(front[a] == head[a]);
            }
        }
        assert(front + rendered(entries) =~= front);
        lemma_no_fault(schema, rules, front, entries);
    } else {
        assert(lines =~= Seq::<Seq<char>>::empty());
    }
}

/// A schema of which every required field has a usable value misses nothing.
pub proof fn lemma_nothing_missing(schema: Seq<Field>, lines: Seq<Seq<char>>)
    requires
        forall|k: int|
            0 <= k < schema.len() && (#[trigger] schema[k]).required ==> usable(schema[k], lines),
    ensures
        first_missing(schema, lines) is None,
    decreases schema.len(),
{
    if schema.len() > 0 {
        let rest = schema.skip(1);
        assert(schema[0].required ==> usable(schema[0], lines));
        assert forall|k: int| 0 <= k < rest.len() && (#[trigger] rest[k]).required implies usable(
            rest[k],
            lines,
        ) by {
            assert(rest[k] == schema[k + 1]);
        }
        lemma_nothing_missing(rest, lines);
    }
}

/// Lines are without fault exactly when none of them is faulty.
pub proof fn lemma_fault_free(schema: Seq<Field>, rules: Rules, lines: Seq<Seq<char>>)
    ensures
        first_fault(schema, rules, lines) is None <==> forall|i: int|
            0 <= i < lines.len() ==> !is_faulty(schema, rules, #[trigger] lines[i]),
    decreases lines.len(),
{
    if lines.len() > 0 {
        let front = lines.drop_last();
        lemma_fault_free(schema, rules, front);
        if first_fault(schema, rules, lines) is None {
            assert forall|i: int| 0 <= i < lines.len() implies !is_faulty(
                schema,
                rules,
                #[trigger] lines[i],
            ) by {
                if i < front.len() {
                    assert(front[i] == lines[i]);
                }
            }
        } else if first_fault(schema, rules, front) is Some {
            let i = choose|i: int| 0 <= i < front.len() && is_faulty(schema, rules, front[i]);
            assert(front[i] == lines[i]);
        } else {
            assert(is_faulty(schema, rules, lines[lines.len() - 1]));
        }
    }
}

/// Every value has a line that gives it, and a key without value is named
/// by no line.
pub proof fn lemma_value_has_source(lines: Seq<Seq<char>>, name: Seq<char>)
    ensures
        last_value(lines, name) matches Some(value) ==> exists|i: int|
            0 <= i < lines.len() && classify(#[trigger] lines[i]) == (Line::Pair {
                key: name,
                value,
            }),
        last_value(lines, name) is None ==> forall|i: int|
            0 <= i < lines.len() ==> !(classify(#[trigger] lines[i]) matches Line::Pair {
                key,
                ..
            } && key == name),
    decreases lines.len(),
{
    if lines.len() > 0 {
        let front = lines.drop_last();
        let here = classify(lines.last()) matches Line::Pair { key, .. } && key == name;
        if here {
            assert(classify(lines[lines.len() - 1]) == (Line::Pair {
                key: name,
                value: last_value(lines, name)->0,
            }));
        } else {
            lemma_value_has_source(front, name);
            if last_value(lines, name) is Some {
                let value = last_value(lines, name)->0;
                let i = choose|i: int|
                    0 <= i < front.len() && classify(#[trigger] front[i]) == (Line::Pair {
                        key: name,
                        value,
                    });
                assert(front[i] == lines[i]);
            } else {
                assert forall|i: int| 0 <= i < lines.len() implies !(classify(
                    #[trigger] lines[i],
                ) matches Line::Pair { key, .. } && key == name) by {
                    if i < front.len() {
                        assert(front[i] == lines[i]);
                    }
                }
            }
        }
    }
}

/// Where no key is named twice, the value of a key is that of the one line
/// that names it.
pub proof fn lemma_value_of_single_entry(lines: Seq<Seq<char>>, i: int)
    requires
        keys_once(lines),
        0 <= i < lines.len(),
        classify(lines[i]) is Pair,
    ensures
        last_value(lines, classify(lines[i])->key) == Some(classify(lines[i])->value),
    decreases lines.len(),
{
    let name = classify(lines[i])->key;
    if i < lines.len() - 1 {
        let front = lines.drop_last();
        assert(front[i] == lines[i]);
        assert(!(classify(lines[i]) matches Line::Pair { key: first, .. } && classify(
            lines[lines.len() - 1],
        ) matches Line::Pair { key: second, .. } && first == second));
        assert(keys_once(front)) by {
            assert forall|a: int, b: int| 0 <= a < b < front.len() implies !(classify(
                #[trigger] front[a],
            ) matches Line::Pair { key: first, .. } && classify(
                #[trigger] front[b],
            ) matches Line::Pair { key: second, .. } && first == second) by {
                assert(front[a] == lines[a]);
                assert(front[b] == lines[b]);
            }
        }
        lemma_value_of_single_entry(front, i);
    }
}

/// Two lists of the same lines, in whatever order, neither naming a key
/// twice, give every key the same value and are both with or both without
/// fault.
pub proof fn lemma_order_is_immaterial(
    schema: Seq<Field>,
    rules: Rules,
    a: Seq<Seq<char>>,
    b: Seq<Seq<char>>,
    name: Seq<char>,
)
    requires
        a.to_multiset() == b.to_multiset(),
        keys_once(a),
        keys_once(b),
    ensures
        last_value(a, name) == last_value(b, name),
        first_fault(schema, rules, a) is None <==> first_fault(schema, rules, b) is None,
{
    a.to_multiset_ensures();
    b.to_multiset_ensures();
    lemma_value_has_source(a, name);
    lemma_value_has_source(b, name);
    if last_value(a, name) is Some {
        let value = last_value(a, name)->0;
        let i = choose|i: int|
            0 <= i < a.len() && classify(#[trigger] a[i]) == (Line::Pair { key: name, value });
        assert(a.contains(a[i]));
        assert(b.to_multiset().count(a[i]) > 0);
        assert(b.contains(a[i]));
        let j = choose|j: int| 0 <= j < b.len() && b[j] == a[i];
        lemma_value_of_single_entry(b, j);
    } else if last_value(b, name) is Some {
        let value = last_value(b, name)->0;
        let j = choose|j: int|
            0 <= j < b.len() && classify(#[trigger] b[j]) == (Line::Pair { key: name, value });
        assert(b.contains(b[j]));
        assert(a.to_multiset().count(b[j]) > 0);
        assert(a.contains(b[j]));
        let i = choose|i: int| 0 <= i < a.len() && a[i] == b[j];
        lemma_value_of_single_entry(a, i);
    }
    lemma_fault_free(schema, rules, a);
    lemma_fault_free(schema, rules, b);
    if first_fault(schema, rules, a) is None {
        assert forall|j: int| 0 <= j < b.len() implies !is_faulty(schema, rules, #[trigger] b[j]) by {
            assert(b.contains(b[j]));
            assert(a.to_multiset().count(b[j]) > 0);
            assert(a.contains(b[j]));
            let i = choose|i: int| 0 <= i < a.len() && a[i] == b[j];
            assert(!is_faulty(schema, rules, a[i]));
        }
    }
    if first_fault(schema, rules, b) is None {
        assert forall|i: int| 0 <= i < a.len() implies !is_faulty(schema, rules, #[trigger] a[i]) by {
            assert(a.contains(a[i]));
            assert(b.to_multiset().count(a[i]) > 0);
            assert(b.contains(a[i]));
            let j = choose|j: int| 0 <= j < b.len() && b[j] == a[i];
            assert(!is_faulty(schema, rules, b[j]));
        }
    }
}

/// A line that carries nothing changes no value of a key of the schema,
/// wherever it is put, and brings no fault.
pub proof fn lemma_line_that_carries_nothing(
    schema: Seq<Field>,
    rules: Rules,
    lines: Seq<Seq<char>>,
    at: int,
    extra: Seq<char>,
    name: Seq<char>,
)
    requires
        0 <= at <= lines.len(),
        carries_nothing(schema, rules, extra),
        kind_of(schema, name) is Some,
    ensures
        last_value(lines.insert(at, extra), name) == last_value(lines, name),
        first_fault(schema, rules, lines.insert(at, extra)) is None <==> first_fault(
            schema,
            rules,
            lines,
        ) is None,
    decreases lines.len() - at,
{
    let more = lines.insert(at, extra);
    lemma_fault_free(schema, rules, lines);
    lemma_fault_free(schema, rules, more);
    assert(!is_faulty(schema, rules, extra));
    if first_fault(schema, rules, lines) is None {
        assert forall|i: int| 0 <= i < more.len() implies !is_faulty(
            schema,
            rules,
            #[trigger] more[i],
        ) by {
            if i < at {
                assert(more[i] == lines[i]);
            } else if i > at {
                assert(more[i] == lines[i - 1]);
            }
        }
    }
    if first_fault(schema, rules, more) is None {
        assert forall|i: int| 0 <= i < lines.len() implies !is_faulty(
            schema,
            rules,
            #[trigger] lines[i],
        ) by {
            if i < at {
                assert(more[i] == lines[i]);
            } else {
                assert(more[i + 1] == lines[i]);
            }
        }
    }
    if at == lines.len() {
        assert(more.drop_last() =~= lines);
        assert(more.last() == extra);
    } else {
        assert(more.drop_last() =~= lines.drop_last().insert(at, extra));
        assert(more.last() == lines.last());
        lemma_line_that_carries_nothing(schema, rules, lines.drop_last(), at, extra, name);
    }
}

/// Lines that give every key of the schema the same value miss the same key.
pub proof fn lemma_same_values_same_missing(
    schema: Seq<Field>,
    a: Seq<Seq<char>>,
    b: Seq<Seq<char>>,
)
    requires
        forall|k: int|
            0 <= k < schema.len() ==> last_value(a, (#[trigger] schema[k]).name@) == last_value(
                b,
                schema[k].name@,
            ),
    ensures
        first_missing(schema, a) == first_missing(schema, b),
    decreases schema.len(),
{
    if schema.len() > 0 {
        let rest = schema.skip(1);
        assert(last_value(a, schema[0].name@) == last_value(b, schema[0].name@));
        assert forall|k: int| 0 <= k < rest.len() implies last_value(a, (#[trigger] rest[k]).name@)
            == last_value(b, rest[k].name@) by {
            assert(rest[k] == schema[k + 1]);
        }
        lemma_same_values_same_missing(rest, a, b);
    }
}

/// The schema knows the keys it holds.
pub proof fn lemma_kind_of_known(schema: Seq<Field>, k: int)
    requires
        0 <= k < schema.len(),
    ensures
        kind_of(schema, schema[k].name@) is Some,
    decreases k,
{
    if k > 0 && schema[0].name@ != schema[k].name@ {
        let rest = schema.skip(1);
        assert(rest[k - 1] == schema[k]);
        lemma_kind_of_known(rest, k - 1);
    }
}

/// A required field without usable value makes the reading fail.
pub proof fn lemma_missing_is_reported(schema: Seq<Field>, lines: Seq<Seq<char>>, k: int)
    requires
        0 <= k < schema.len(),
        schema[k].required,
        !usable(schema[k], lines),
    ensures
        first_missing(schema, lines) is Some,
    decreases k,
{
    if k > 0 && !(schema[0].required && !usable(schema[0], lines)) {
        let rest = schema.skip(1);
        assert(rest[k - 1] == schema[k]);
        lemma_missing_is_reported(rest, lines, k - 1);
    }
}

} // verus!
