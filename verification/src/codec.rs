//! The wire payload codec.
//!
//! Every published event is one self-describing structured text object
//! with the fields identifier, timestamp, database, table, operation,
//! before, after, primary_key and transaction_id, in that order.  The
//! encoding is defined here once, as spec functions; the executable
//! serializer and parser are both proved against it, and parsing a
//! serialized event gives back a structurally identical event.

use crate::cdc::events::{
    cols_model, opt_cols_model, opt_str_model, spec_operation_str, val_model, operation_str,
    ChangeEvent, ChangeOperation, ColsModel, ColumnValue, EventModel, ValModel,
};
use vstd::prelude::*;
use vstd::string::*;

verus! {

// ---------------------------------------------------------------------
// Rendering, as spec functions.
// ---------------------------------------------------------------------

/// How one character of a string is written: a quote or a backslash is
/// preceded by a backslash, every other character stands as itself.
pub open spec fn esc_char(c: char) -> Seq<char> {
    if c == '"' || c == '\\' {
        seq!['\\', c]
    } else {
        seq![c]
    }
}

/// The written body of a string: each character escaped.
pub open spec fn str_body(s: Seq<char>) -> Seq<char>
    decreases s.len(),
{
    if s.len() == 0 {
        Seq::empty()
    } else {
        esc_char(s[0]) + str_body(s.skip(1))
    }
}

/// A written string: the escaped body between quotes.
pub open spec fn str_render(s: Seq<char>) -> Seq<char> {
    seq!['"'] + str_body(s) + seq!['"']
}

/// Characters that may occur in a written number.
pub open spec fn is_num_char(c: char) -> bool {
    (48 <= c as u32 && c as u32 <= 57) || c == '-' || c == '+' || c == '.' || c == 'e' || c == 'E'
}

/// A well-formed written number: non-empty, number characters only, and
/// opening with a digit or a minus sign.
pub open spec fn num_wf(s: Seq<char>) -> bool {
    &&& s.len() > 0
    &&& forall|k: int| 0 <= k < s.len() ==> is_num_char(s[k])
    &&& ((48 <= s[0] as u32 && s[0] as u32 <= 57) || s[0] == '-')
}

/// How one column value is written.
pub open spec fn val_render(v: ValModel) -> Seq<char> {
    match v {
        ValModel::Null => seq!['n', 'u', 'l', 'l'],
        ValModel::Bool(b) => if b {
            seq!['t', 'r', 'u', 'e']
        } else {
            seq!['f', 'a', 'l', 's', 'e']
        },
        ValModel::Num(s) => s,
        ValModel::Str(s) => str_render(s),
    }
}

/// A value the codec can write and read back: numbers must be
/// well-formed, everything else always is.
pub open spec fn val_wf(v: ValModel) -> bool {
    match v {
        ValModel::Num(s) => num_wf(s),
        _ => true,
    }
}

/// One written column: name, colon, value.
pub open spec fn pair_render(p: (Seq<char>, ValModel)) -> Seq<char> {
    str_render(p.0) + seq![':'] + val_render(p.1)
}

/// The written columns of a map, comma-separated.
pub open spec fn items_render(m: ColsModel) -> Seq<char>
    decreases m.len(),
{
    if m.len() == 0 {
        Seq::empty()
    } else if m.len() == 1 {
        pair_render(m[0])
    } else {
        pair_render(m[0]) + seq![','] + items_render(m.skip(1))
    }
}

/// A written column map.
pub open spec fn map_render(m: ColsModel) -> Seq<char> {
    seq!['{'] + items_render(m) + seq!['}']
}

/// An optional column map: absent maps are written as null.
pub open spec fn opt_map_render(m: Option<ColsModel>) -> Seq<char> {
    match m {
        None => seq!['n', 'u', 'l', 'l'],
        Some(c) => map_render(c),
    }
}

/// An optional string: absent strings are written as null.
pub open spec fn opt_str_render(s: Option<Seq<char>>) -> Seq<char> {
    match s {
        None => seq!['n', 'u', 'l', 'l'],
        Some(c) => str_render(c),
    }
}

pub open spec fn cols_wf(m: ColsModel) -> bool {
    forall|k: int| 0 <= k < m.len() ==> val_wf(m[k].1)
}

/// An event the codec can write and read back: every carried number is
/// well-formed.
pub open spec fn event_wf(m: EventModel) -> bool {
    &&& cols_wf(m.primary_key)
    &&& (m.before matches Some(b) ==> cols_wf(b))
    &&& (m.after matches Some(a) ==> cols_wf(a))
}

/// The whole wire payload of an event.
pub open spec fn wire_of(m: EventModel) -> Seq<char> {
    "{\"id\":"@ + str_render(m.id) + wire_from_timestamp(m)
}

pub open spec fn wire_from_timestamp(m: EventModel) -> Seq<char> {
    ",\"timestamp\":"@ + str_render(m.timestamp) + wire_from_database(m)
}

pub open spec fn wire_from_database(m: EventModel) -> Seq<char> {
    ",\"database\":"@ + str_render(m.database) + wire_from_table(m)
}

pub open spec fn wire_from_table(m: EventModel) -> Seq<char> {
    ",\"table\":"@ + str_render(m.table) + wire_from_operation(m)
}

pub open spec fn wire_from_operation(m: EventModel) -> Seq<char> {
    ",\"operation\":"@ + str_render(spec_operation_str(m.operation)) + wire_from_before(m)
}

pub open spec fn wire_from_before(m: EventModel) -> Seq<char> {
    ",\"before\":"@ + opt_map_render(m.before) + wire_from_after(m)
}

pub open spec fn wire_from_after(m: EventModel) -> Seq<char> {
    ",\"after\":"@ + opt_map_render(m.after) + wire_from_primary_key(m)
}

pub open spec fn wire_from_primary_key(m: EventModel) -> Seq<char> {
    ",\"primary_key\":"@ + map_render(m.primary_key) + wire_from_transaction_id(m)
}

pub open spec fn wire_from_transaction_id(m: EventModel) -> Seq<char> {
    ",\"transaction_id\":"@ + opt_str_render(m.transaction_id) + "}"@
}

// ---------------------------------------------------------------------
// Rendering, executable.
// ---------------------------------------------------------------------

/// The written body of a concatenation is the concatenation of the
/// written bodies.
pub proof fn lemma_str_body_app(a: Seq<char>, b: Seq<char>)
    ensures
        str_body(a + b) == str_body(a) + str_body(b),
    decreases a.len(),
{
    if a.len() == 0 {
        assert(a + b =~= b);
        assert(str_body(a) + str_body(b) =~= str_body(b));
    } else {
        lemma_str_body_app(a.skip(1), b);
        assert((a + b).skip(1) =~= a.skip(1) + b);
        assert(esc_char(a[0]) + (str_body(a.skip(1)) + str_body(b)) =~= (esc_char(a[0])
            + str_body(a.skip(1))) + str_body(b));
    }
}

/// Relies on `Iterator::collect` for `String`: the collected string
/// holds exactly the characters of the vector, in order.
#[verifier::external_body]
fn chars_to_string(v: &Vec<char>) -> (r: String)
    ensures
        r@ == v@,
{
    v.iter().collect()
}

/// Appends the characters of `s` unchanged.
fn push_raw(out: &mut Vec<char>, s: &str)
    ensures
        final(out)@ == old(out)@ + s@,
{
    let n = s.unicode_len();
    let mut i: usize = 0;
    while i < n
        invariant
            n == s@.len(),
            i <= n,
            out@ == old(out)@ + s@.take(i as int),
        decreases n - i,
    {
        let c = s.get_char(i);
        out.push(c);
        assert(out@ =~= old(out)@ + s@.take(i + 1));
        i += 1;
    }
    assert(out@ =~= old(out)@ + s@);
}

/// Appends the written form of `s`: quoted, with escapes.
fn push_escaped(out: &mut Vec<char>, s: &str)
    ensures
        final(out)@ == old(out)@ + str_render(s@),
{
    let n = s.unicode_len();
    out.push('"');
    let mut i: usize = 0;
    while i < n
        invariant
            n == s@.len(),
            i <= n,
            out@ == old(out)@ + seq!['"'] + str_body(s@.take(i as int)),
        decreases n - i,
    {
        let c = s.get_char(i);
        if c == '"' || c == '\\' {
            out.push('\\');
        }
        out.push(c);
        proof {
            lemma_str_body_app(s@.take(i as int), seq![s@[i as int]]);
            assert(s@.take(i + 1) =~= s@.take(i as int) + seq![s@[i as int]]);
            let t = seq![s@[i as int]];
            assert(t.skip(1) =~= Seq::<char>::empty());
            assert(str_body(t.skip(1)) == Seq::<char>::empty());
            assert(str_body(t) =~= esc_char(s@[i as int]));
            assert(out@ =~= old(out)@ + seq!['"'] + str_body(s@.take(i + 1)));
        }
        i += 1;
    }
    out.push('"');
    assert(s@.take(n as int) =~= s@);
    assert(out@ =~= old(out)@ + str_render(s@));
}

/// Appends the written form of one column value.
fn push_value(out: &mut Vec<char>, v: &ColumnValue)
    ensures
        final(out)@ == old(out)@ + val_render(val_model(*v)),
{
    match v {
        ColumnValue::Null => {
            out.push('n');
            out.push('u');
            out.push('l');
            out.push('l');
            assert(out@ =~= old(out)@ + val_render(ValModel::Null));
        },
        ColumnValue::Bool(b) => {
            if *b {
                out.push('t');
                out.push('r');
                out.push('u');
                out.push('e');
            } else {
                out.push('f');
                out.push('a');
                out.push('l');
                out.push('s');
                out.push('e');
            }
            assert(out@ =~= old(out)@ + val_render(ValModel::Bool(*b)));
        },
        ColumnValue::Num(s) => {
            push_raw(out, s.as_str());
        },
        ColumnValue::Str(s) => {
            push_escaped(out, s.as_str());
        },
    }
}

/// Writing one more column extends the written columns with a comma and
/// the column, except for the first column.
pub proof fn lemma_items_snoc(m: ColsModel, i: int)
    requires
        0 <= i < m.len(),
    ensures
        items_render(m.take(i + 1)) == if i == 0 {
            pair_render(m[0])
        } else {
            items_render(m.take(i)) + seq![','] + pair_render(m[i])
        },
    decreases i,
{
    if i == 0 {
        assert(m.take(1).len() == 1);
        assert(m.take(1)[0] == m[0]);
    } else {
        lemma_items_snoc(m.skip(1), i - 1);
        let t = m.take(i + 1);
        assert(t.len() >= 2);
        assert(t[0] == m[0]);
        assert(t.skip(1) =~= m.skip(1).take(i));
        assert(m.take(i).skip(1) =~= m.skip(1).take(i - 1));
        assert(m.take(i)[0] == m[0]);
        assert(m.skip(1)[i - 1] == m[i]);
        if i == 1 {
            assert(items_render(m.skip(1).take(1)) == pair_render(m.skip(1)[0]));
            assert(items_render(t) =~= items_render(m.take(1)) + seq![','] + pair_render(m[1]));
        } else {
            assert(items_render(t) == pair_render(m[0]) + seq![','] + items_render(
                m.skip(1).take(i),
            ));
            assert(items_render(m.take(i)) == pair_render(m[0]) + seq![','] + items_render(
                m.skip(1).take(i - 1),
            ));
            assert(pair_render(m[0]) + seq![','] + (items_render(m.skip(1).take(i - 1)) + seq![',']
                + pair_render(m[i])) =~= (pair_render(m[0]) + seq![','] + items_render(
                m.skip(1).take(i - 1),
            )) + seq![','] + pair_render(m[i]));
        }
    }
}

/// Appends the written form of a column map.
fn push_map(out: &mut Vec<char>, m: &Vec<(String, ColumnValue)>)
    ensures
        final(out)@ == old(out)@ + map_render(cols_model(m@)),
{
    out.push('{');
    let ghost cm = cols_model(m@);
    let mut i: usize = 0;
    while i < m.len()
        invariant
            i <= m@.len(),
            cm == cols_model(m@),
            cm.len() == m@.len(),
            out@ == old(out)@ + seq!['{'] + items_render(cm.take(i as int)),
        decreases m@.len() - i,
    {
        if i > 0 {
            out.push(',');
        }
        let pair = &m[i];
        push_escaped(out, pair.0.as_str());
        out.push(':');
        push_value(out, &pair.1);
        proof {
            lemma_items_snoc(cm, i as int);
            assert(cm[i as int] == (m@[i as int].0@, val_model(m@[i as int].1)));
            assert(out@ =~= old(out)@ + seq!['{'] + items_render(cm.take(i + 1)));
        }
        i += 1;
    }
    assert(cm.take(m@.len() as int) =~= cm);
    out.push('}');
    assert(out@ =~= old(out)@ + map_render(cm));
}

/// Appends the written form of an optional column map.
fn push_opt_map(out: &mut Vec<char>, m: &Option<Vec<(String, ColumnValue)>>)
    ensures
        final(out)@ == old(out)@ + opt_map_render(opt_cols_model(*m)),
{
    match m {
        None => {
            out.push('n');
            out.push('u');
            out.push('l');
            out.push('l');
            assert(out@ =~= old(out)@ + opt_map_render(None));
        },
        Some(v) => {
            push_map(out, v);
        },
    }
}

/// Appends the written form of an optional string.
fn push_opt_string(out: &mut Vec<char>, s: &Option<String>)
    ensures
        final(out)@ == old(out)@ + opt_str_render(opt_str_model(*s)),
{
    match s {
        None => {
            out.push('n');
            out.push('u');
            out.push('l');
            out.push('l');
            assert(out@ =~= old(out)@ + opt_str_render(None));
        },
        Some(v) => {
            push_escaped(out, v.as_str());
        },
    }
}

fn write_from_transaction_id(out: &mut Vec<char>, e: &ChangeEvent)
    ensures
        final(out)@ == old(out)@ + wire_from_transaction_id(e.model()),
{
    push_raw(out, ",\"transaction_id\":");
    push_opt_string(out, &e.transaction_id);
    push_raw(out, "}");
    assert(out@ =~= old(out)@ + wire_from_transaction_id(e.model()));
}

fn write_from_primary_key(out: &mut Vec<char>, e: &ChangeEvent)
    ensures
        final(out)@ == old(out)@ + wire_from_primary_key(e.model()),
{
    push_raw(out, ",\"primary_key\":");
    push_map(out, &e.primary_key);
    write_from_transaction_id(out, e);
    assert(out@ =~= old(out)@ + wire_from_primary_key(e.model()));
}

fn write_from_after(out: &mut Vec<char>, e: &ChangeEvent)
    ensures
        final(out)@ == old(out)@ + wire_from_after(e.model()),
{
    push_raw(out, ",\"after\":");
    push_opt_map(out, &e.after);
    write_from_primary_key(out, e);
    assert(out@ =~= old(out)@ + wire_from_after(e.model()));
}

fn write_from_before(out: &mut Vec<char>, e: &ChangeEvent)
    ensures
        final(out)@ == old(out)@ + wire_from_before(e.model()),
{
    push_raw(out, ",\"before\":");
    push_opt_map(out, &e.before);
    write_from_after(out, e);
    assert(out@ =~= old(out)@ + wire_from_before(e.model()));
}

fn write_from_operation(out: &mut Vec<char>, e: &ChangeEvent)
    ensures
        final(out)@ == old(out)@ + wire_from_operation(e.model()),
{
    push_raw(out, ",\"operation\":");
    push_escaped(out, operation_str(e.operation));
    write_from_before(out, e);
    assert(out@ =~= old(out)@ + wire_from_operation(e.model()));
}

fn write_from_table(out: &mut Vec<char>, e: &ChangeEvent)
    ensures
        final(out)@ == old(out)@ + wire_from_table(e.model()),
{
    push_raw(out, ",\"table\":");
    push_escaped(out, e.table.as_str());
    write_from_operation(out, e);
    assert(out@ =~= old(out)@ + wire_from_table(e.model()));
}

fn write_from_database(out: &mut Vec<char>, e: &ChangeEvent)
    ensures
        final(out)@ == old(out)@ + wire_from_database(e.model()),
{
    push_raw(out, ",\"database\":");
    push_escaped(out, e.database.as_str());
    write_from_table(out, e);
    assert(out@ =~= old(out)@ + wire_from_database(e.model()));
}

fn write_from_timestamp(out: &mut Vec<char>, e: &ChangeEvent)
    ensures
        final(out)@ == old(out)@ + wire_from_timestamp(e.model()),
{
    push_raw(out, ",\"timestamp\":");
    push_escaped(out, e.timestamp.as_str());
    write_from_database(out, e);
    assert(out@ =~= old(out)@ + wire_from_timestamp(e.model()));
}

// ---------------------------------------------------------------------
// Parsing, as spec functions.
//
// Each spec parser consumes from position `i` and yields the parsed
// value with the position just past it, or `None` where the input does
// not follow the encoding.  The executable parser below returns exactly
// these results.
// ---------------------------------------------------------------------

/// Expects the exact characters `pat` at position `i`.
pub open spec fn sp_expect(cs: Seq<char>, i: int, pat: Seq<char>) -> Option<int> {
    if 0 <= i && i + pat.len() <= cs.len() && cs.subrange(i, i + pat.len()) == pat {
        Some(i + pat.len())
    } else {
        None
    }
}

/// Reads a string body up to and including its closing quote.
pub open spec fn sp_str_body(cs: Seq<char>, i: int) -> Option<(Seq<char>, int)>
    decreases cs.len() - i,
{
    if i < 0 || i >= cs.len() {
        None
    } else if cs[i] == '"' {
        Some((Seq::empty(), i + 1))
    } else if cs[i] == '\\' {
        if i + 1 < cs.len() && (cs[i + 1] == '"' || cs[i + 1] == '\\') {
            match sp_str_body(cs, i + 2) {
                Some((v, j)) => Some((seq![cs[i + 1]] + v, j)),
                None => None,
            }
        } else {
            None
        }
    } else {
        match sp_str_body(cs, i + 1) {
            Some((v, j)) => Some((seq![cs[i]] + v, j)),
            None => None,
        }
    }
}

/// Reads a quoted string.
pub open spec fn sp_string(cs: Seq<char>, i: int) -> Option<(Seq<char>, int)> {
    if 0 <= i && i < cs.len() && cs[i] == '"' {
        sp_str_body(cs, i + 1)
    } else {
        None
    }
}

/// Reads the longest run of number characters.
pub open spec fn sp_num(cs: Seq<char>, i: int) -> (Seq<char>, int)
    decreases cs.len() - i,
{
    if 0 <= i && i < cs.len() && is_num_char(cs[i]) {
        let r = sp_num(cs, i + 1);
        (seq![cs[i]] + r.0, r.1)
    } else {
        (Seq::empty(), i)
    }
}

/// Reads one scalar value.
pub open spec fn sp_value(cs: Seq<char>, i: int) -> Option<(ValModel, int)> {
    if i < 0 || i >= cs.len() {
        None
    } else if cs[i] == 'n' {
        match sp_expect(cs, i, seq!['n', 'u', 'l', 'l']) {
            Some(j) => Some((ValModel::Null, j)),
            None => None,
        }
    } else if cs[i] == 't' {
        match sp_expect(cs, i, seq!['t', 'r', 'u', 'e']) {
            Some(j) => Some((ValModel::Bool(true), j)),
            None => None,
        }
    } else if cs[i] == 'f' {
        match sp_expect(cs, i, seq!['f', 'a', 'l', 's', 'e']) {
            Some(j) => Some((ValModel::Bool(false), j)),
            None => None,
        }
    } else if cs[i] == '"' {
        match sp_string(cs, i) {
            Some((s, j)) => Some((ValModel::Str(s), j)),
            None => None,
        }
    } else if (48 <= cs[i] as u32 && cs[i] as u32 <= 57) || cs[i] == '-' {
        let r = sp_num(cs, i);
        Some((ValModel::Num(r.0), r.1))
    } else {
        None
    }
}

/// Reads one `name:value` column.
pub open spec fn sp_pair(cs: Seq<char>, i: int) -> Option<((Seq<char>, ValModel), int)> {
    match sp_string(cs, i) {
        None => None,
        Some((k, j1)) => match sp_expect(cs, j1, seq![':']) {
            None => None,
            Some(j2) => match sp_value(cs, j2) {
                None => None,
                Some((v, j3)) => Some(((k, v), j3)),
            },
        },
    }
}

pub proof fn lemma_sp_str_body_bounds(cs: Seq<char>, i: int)
    ensures
        sp_str_body(cs, i) matches Some(r) ==> 0 <= i < r.1 <= cs.len(),
    decreases cs.len() - i,
{
    if i < 0 || i >= cs.len() {
    } else if cs[i] == '"' {
    } else if cs[i] == '\\' {
        if i + 1 < cs.len() && (cs[i + 1] == '"' || cs[i + 1] == '\\') {
            lemma_sp_str_body_bounds(cs, i + 2);
        }
    } else {
        lemma_sp_str_body_bounds(cs, i + 1);
    }
}

pub proof fn lemma_sp_num_bounds(cs: Seq<char>, i: int)
    requires
        0 <= i <= cs.len(),
    ensures
        i <= sp_num(cs, i).1 <= cs.len(),
        i < cs.len() && is_num_char(cs[i]) ==> i < sp_num(cs, i).1,
    decreases cs.len() - i,
{
    if i < cs.len() && is_num_char(cs[i]) {
        lemma_sp_num_bounds(cs, i + 1);
    }
}

pub proof fn lemma_sp_value_bounds(cs: Seq<char>, i: int)
    ensures
        sp_value(cs, i) matches Some(r) ==> 0 <= i < r.1 <= cs.len(),
{
    if 0 <= i && i < cs.len() {
        if cs[i] == '"' {
            lemma_sp_str_body_bounds(cs, i + 1);
        } else if (48 <= cs[i] as u32 && cs[i] as u32 <= 57) || cs[i] == '-' {
            lemma_sp_num_bounds(cs, i);
        }
    }
}

pub proof fn lemma_sp_pair_bounds(cs: Seq<char>, i: int)
    ensures
        sp_pair(cs, i) matches Some(r) ==> 0 <= i < r.1 <= cs.len(),
{
    lemma_sp_str_body_bounds(cs, i + 1);
    match sp_string(cs, i) {
        Some((k, j1)) => {
            match sp_expect(cs, j1, seq![':']) {
                Some(j2) => lemma_sp_value_bounds(cs, j2),
                None => {},
            }
        },
        None => {},
    }
}

/// Reads one or more comma-separated columns and the closing brace.
pub open spec fn sp_items(cs: Seq<char>, i: int) -> Option<(ColsModel, int)>
    decreases cs.len() - i,
    when true
    via sp_items_dec
{
    match sp_pair(cs, i) {
        None => None,
        Some((p, j)) => if j < cs.len() && cs[j] == ',' {
            match sp_items(cs, j + 1) {
                Some((m, j2)) => Some((seq![p] + m, j2)),
                None => None,
            }
        } else if j < cs.len() && cs[j] == '}' {
            Some((seq![p], j + 1))
        } else {
            None
        },
    }
}

#[via_fn]
proof fn sp_items_dec(cs: Seq<char>, i: int) {
    lemma_sp_pair_bounds(cs, i);
}

/// Reads a column map, braces included.
pub open spec fn sp_map(cs: Seq<char>, i: int) -> Option<(ColsModel, int)> {
    if i < 0 || i >= cs.len() || cs[i] != '{' {
        None
    } else if i + 1 < cs.len() && cs[i + 1] == '}' {
        Some((Seq::empty(), i + 2))
    } else {
        sp_items(cs, i + 1)
    }
}

/// Reads a column map or the null placeholder.
pub open spec fn sp_opt_map(cs: Seq<char>, i: int) -> Option<(Option<ColsModel>, int)> {
    if i < 0 || i >= cs.len() {
        None
    } else if cs[i] == 'n' {
        match sp_expect(cs, i, seq!['n', 'u', 'l', 'l']) {
            Some(j) => Some((None, j)),
            None => None,
        }
    } else {
        match sp_map(cs, i) {
            Some((m, j)) => Some((Some(m), j)),
            None => None,
        }
    }
}

/// Reads a string or the null placeholder.
pub open spec fn sp_opt_str(cs: Seq<char>, i: int) -> Option<(Option<Seq<char>>, int)> {
    if i < 0 || i >= cs.len() {
        None
    } else if cs[i] == 'n' {
        match sp_expect(cs, i, seq!['n', 'u', 'l', 'l']) {
            Some(j) => Some((None, j)),
            None => None,
        }
    } else {
        match sp_string(cs, i) {
            Some((s, j)) => Some((Some(s), j)),
            None => None,
        }
    }
}

/// Maps an operation's wire name back to the operation.
pub open spec fn sp_op(s: Seq<char>) -> Option<ChangeOperation> {
    if s == spec_operation_str(ChangeOperation::Insert) {
        Some(ChangeOperation::Insert)
    } else if s == spec_operation_str(ChangeOperation::Update) {
        Some(ChangeOperation::Update)
    } else if s == spec_operation_str(ChangeOperation::Delete) {
        Some(ChangeOperation::Delete)
    } else {
        None
    }
}

/// Reads a whole wire payload; the entire input must be consumed.
pub open spec fn sp_wire(cs: Seq<char>) -> Option<EventModel> {
    match sp_expect(cs, 0, "{\"id\":"@) {
        None => None,
        Some(i1) => match sp_string(cs, i1) {
            None => None,
            Some((id, i2)) => match sp_expect(cs, i2, ",\"timestamp\":"@) {
                None => None,
                Some(i3) => match sp_string(cs, i3) {
                    None => None,
                    Some((timestamp, i4)) => sp_wire_mid(cs, i4, id, timestamp),
                },
            },
        },
    }
}

/// Reads the fields from `database` on.
pub open spec fn sp_wire_mid(
    cs: Seq<char>,
    i: int,
    id: Seq<char>,
    timestamp: Seq<char>,
) -> Option<EventModel> {
    match sp_expect(cs, i, ",\"database\":"@) {
        None => None,
        Some(i5) => match sp_string(cs, i5) {
            None => None,
            Some((database, i6)) => match sp_expect(cs, i6, ",\"table\":"@) {
                None => None,
                Some(i7) => match sp_string(cs, i7) {
                    None => None,
                    Some((table, i8)) => sp_wire_tail(cs, i8, id, timestamp, database, table),
                },
            },
        },
    }
}

/// Reads the fields from `operation` on.
pub open spec fn sp_wire_tail(
    cs: Seq<char>,
    i: int,
    id: Seq<char>,
    timestamp: Seq<char>,
    database: Seq<char>,
    table: Seq<char>,
) -> Option<EventModel> {
    match sp_expect(cs, i, ",\"operation\":"@) {
        None => None,
        Some(i1) => match sp_string(cs, i1) {
            None => None,
            Some((ops, i2)) => match sp_op(ops) {
                None => None,
                Some(operation) => match sp_expect(cs, i2, ",\"before\":"@) {
                    None => None,
                    Some(i3) => match sp_opt_map(cs, i3) {
                        None => None,
                        Some((before, i4)) => match sp_expect(cs, i4, ",\"after\":"@) {
                            None => None,
                            Some(i5) => match sp_opt_map(cs, i5) {
                                None => None,
                                Some((after, i6)) => match sp_expect(cs, i6, ",\"primary_key\":"@) {
                                    None => None,
                                    Some(i7) => match sp_map(cs, i7) {
                                        None => None,
                                        Some((primary_key, i8)) => match sp_expect(
                                            cs,
                                            i8,
                                            ",\"transaction_id\":"@,
                                        ) {
                                            None => None,
                                            Some(i9) => match sp_opt_str(cs, i9) {
                                                None => None,
                                                Some((transaction_id, i10)) => match sp_expect(
                                                    cs,
                                                    i10,
                                                    "}"@,
                                                ) {
                                                    None => None,
                                                    Some(j) => if j == cs.len() {
                                                        Some(
                                                            EventModel {
                                                                id,
                                                                timestamp,
                                                                database,
                                                                table,
                                                                operation,
                                                                before,
                                                                after,
                                                                primary_key,
                                                                transaction_id,
                                                            },
                                                        )
                                                    } else {
                                                        None
                                                    },
                                                },
                                            },
                                        },
                                    },
                                },
                            },
                        },
                    },
                },
            },
        },
    }
}

/// Serializes an event to its wire payload.
pub fn to_wire(e: &ChangeEvent) -> (r: String)
    ensures
        r@ == wire_of(e.model()),
{
    let mut out: Vec<char> = Vec::new();
    push_raw(&mut out, "{\"id\":");
    push_escaped(&mut out, e.id.as_str());
    write_from_timestamp(&mut out, e);
    assert(out@ =~= wire_of(e.model()));
    chars_to_string(&out)
}

// ---------------------------------------------------------------------
// Parsing, executable.
// ---------------------------------------------------------------------

/// The characters of a string, in order.
pub(crate) fn str_to_chars(s: &str) -> (r: Vec<char>)
    ensures
        r@ == s@,
{
    let n = s.unicode_len();
    let mut r: Vec<char> = Vec::new();
    let mut i: usize = 0;
    while i < n
        invariant
            n == s@.len(),
            i <= n,
            r@ == s@.take(i as int),
        decreases n - i,
    {
        r.push(s.get_char(i));
        assert(r@ =~= s@.take(i + 1));
        i += 1;
    }
    assert(r@ =~= s@);
    r
}

fn expect4(cs: &Vec<char>, i: usize, c0: char, c1: char, c2: char, c3: char) -> (r: Option<usize>)
    ensures
        (r is Some) == (sp_expect(cs@, i as int, seq![c0, c1, c2, c3]) is Some),
        r matches Some(j) ==> sp_expect(cs@, i as int, seq![c0, c1, c2, c3]) == Some(j as int),
{
    if i <= cs.len() && cs.len() - i >= 4 && cs[i] == c0 && cs[i + 1] == c1 && cs[i + 2] == c2
        && cs[i + 3] == c3 {
        assert(cs@.subrange(i as int, i as int + 4) =~= seq![c0, c1, c2, c3]);
        Some(i + 4)
    } else {
        proof {
            let pat = seq![c0, c1, c2, c3];
            if 0 <= i && i + 4 <= cs@.len() && cs@.subrange(i as int, i as int + 4) == pat {
                assert(cs@[i as int] == cs@.subrange(i as int, i as int + 4)[0]);
                assert(cs@[i as int + 1] == cs@.subrange(i as int, i as int + 4)[1]);
                assert(cs@[i as int + 2] == cs@.subrange(i as int, i as int + 4)[2]);
                assert(cs@[i as int + 3] == cs@.subrange(i as int, i as int + 4)[3]);
                assert(false);
            }
        }
        None
    }
}

fn expect5(
    cs: &Vec<char>,
    i: usize,
    c0: char,
    c1: char,
    c2: char,
    c3: char,
    c4: char,
) -> (r: Option<usize>)
    ensures
        (r is Some) == (sp_expect(cs@, i as int, seq![c0, c1, c2, c3, c4]) is Some),
        r matches Some(j) ==> sp_expect(cs@, i as int, seq![c0, c1, c2, c3, c4]) == Some(j as int),
{
    if i <= cs.len() && cs.len() - i >= 5 && cs[i] == c0 && cs[i + 1] == c1 && cs[i + 2] == c2
        && cs[i + 3] == c3 && cs[i + 4] == c4 {
        assert(cs@.subrange(i as int, i as int + 5) =~= seq![c0, c1, c2, c3, c4]);
        Some(i + 5)
    } else {
        proof {
            let pat = seq![c0, c1, c2, c3, c4];
            if 0 <= i && i + 5 <= cs@.len() && cs@.subrange(i as int, i as int + 5) == pat {
                assert(cs@[i as int] == cs@.subrange(i as int, i as int + 5)[0]);
                assert(cs@[i as int + 1] == cs@.subrange(i as int, i as int + 5)[1]);
                assert(cs@[i as int + 2] == cs@.subrange(i as int, i as int + 5)[2]);
                assert(cs@[i as int + 3] == cs@.subrange(i as int, i as int + 5)[3]);
                assert(cs@[i as int + 4] == cs@.subrange(i as int, i as int + 5)[4]);
                assert(false);
            }
        }
        None
    }
}

/// Expects the characters of `pat` at position `i`.
pub(crate) fn expect_str(cs: &Vec<char>, i: usize, pat: &str) -> (r: Option<usize>)
    ensures
        (r is Some) == (sp_expect(cs@, i as int, pat@) is Some),
        r matches Some(j) ==> sp_expect(cs@, i as int, pat@) == Some(j as int),
{
    let n = pat.unicode_len();
    if i > cs.len() || cs.len() - i < n {
        return None;
    }
    let end: usize = i + n;
    let mut k: usize = 0;
    while k < n
        invariant
            n == pat@.len(),
            end == i + n,
            i + n <= cs@.len(),
            k <= n,
            forall|q: int| 0 <= q < k ==> cs@[i + q] == pat@[q],
        decreases n - k,
    {
        if cs[i + k] != pat.get_char(k) {
            proof {
                if cs@.subrange(i as int, i as int + pat@.len()) == pat@ {
                    assert(cs@[i + k] == cs@.subrange(i as int, i as int + pat@.len())[k as int]);
                    assert(false);
                }
            }
            return None;
        }
        k += 1;
    }
    assert(cs@.subrange(i as int, i as int + pat@.len()) =~= pat@);
    Some(i + n)
}

/// Reads a string body up to and including its closing quote.
fn parse_str_body(cs: &Vec<char>, i: usize) -> (r: Option<(Vec<char>, usize)>)
    ensures
        (r is Some) == (sp_str_body(cs@, i as int) is Some),
        r matches Some(p) ==> (sp_str_body(cs@, i as int) matches Some(sp) && p.0@ == sp.0 && p.1
            == sp.1),
    decreases cs@.len() - i,
{
    if i >= cs.len() {
        return None;
    }
    let c = cs[i];
    if c == '"' {
        Some((Vec::new(), i + 1))
    } else if c == '\\' {
        if i + 1 < cs.len() {
            let x = cs[i + 1];
            if x == '"' || x == '\\' {
                match parse_str_body(cs, i + 2) {
                    Some((mut v, j)) => {
                        v.insert(0, x);
                        assert(v@ =~= seq![cs@[i + 1]] + v@.skip(1));
                        Some((v, j))
                    },
                    None => None,
                }
            } else {
                None
            }
        } else {
            None
        }
    } else {
        match parse_str_body(cs, i + 1) {
            Some((mut v, j)) => {
                v.insert(0, c);
                assert(v@ =~= seq![cs@[i as int]] + v@.skip(1));
                Some((v, j))
            },
            None => None,
        }
    }
}

/// Reads a quoted string.
pub(crate) fn parse_string(cs: &Vec<char>, i: usize) -> (r: Option<(String, usize)>)
    ensures
        (r is Some) == (sp_string(cs@, i as int) is Some),
        r matches Some(p) ==> (sp_string(cs@, i as int) matches Some(sp) && p.0@ == sp.0 && p.1
            == sp.1),
{
    if i < cs.len() && cs[i] == '"' {
        match parse_str_body(cs, i + 1) {
            Some((v, j)) => Some((chars_to_string(&v), j)),
            None => None,
        }
    } else {
        None
    }
}

fn is_num_char_exec(c: char) -> (r: bool)
    ensures
        r == is_num_char(c),
{
    let n = c as u32;
    (48 <= n && n <= 57) || c == '-' || c == '+' || c == '.' || c == 'e' || c == 'E'
}

/// Reads the longest run of number characters.
fn parse_num(cs: &Vec<char>, i: usize) -> (r: (Vec<char>, usize))
    ensures
        r.0@ == sp_num(cs@, i as int).0,
        r.1 == sp_num(cs@, i as int).1,
    decreases cs@.len() - i,
{
    if i < cs.len() && is_num_char_exec(cs[i]) {
        let c = cs[i];
        let (mut v, j) = parse_num(cs, i + 1);
        v.insert(0, c);
        assert(v@ =~= seq![cs@[i as int]] + v@.skip(1));
        (v, j)
    } else {
        (Vec::new(), i)
    }
}

/// Reads one scalar value.
fn parse_value(cs: &Vec<char>, i: usize) -> (r: Option<(ColumnValue, usize)>)
    ensures
        (r is Some) == (sp_value(cs@, i as int) is Some),
        r matches Some(p) ==> (sp_value(cs@, i as int) matches Some(sp) && val_model(p.0) == sp.0
            && p.1 == sp.1),
{
    if i >= cs.len() {
        return None;
    }
    let c = cs[i];
    if c == 'n' {
        match expect4(cs, i, 'n', 'u', 'l', 'l') {
            Some(j) => Some((ColumnValue::Null, j)),
            None => None,
        }
    } else if c == 't' {
        match expect4(cs, i, 't', 'r', 'u', 'e') {
            Some(j) => Some((ColumnValue::Bool(true), j)),
            None => None,
        }
    } else if c == 'f' {
        match expect5(cs, i, 'f', 'a', 'l', 's', 'e') {
            Some(j) => Some((ColumnValue::Bool(false), j)),
            None => None,
        }
    } else if c == '"' {
        match parse_string(cs, i) {
            Some((s, j)) => Some((ColumnValue::Str(s), j)),
            None => None,
        }
    } else if {
        let n = c as u32;
        (48 <= n && n <= 57) || c == '-'
    } {
        let (v, j) = parse_num(cs, i);
        Some((ColumnValue::Num(chars_to_string(&v)), j))
    } else {
        None
    }
}

/// Reads one `name:value` column.
fn parse_pair(cs: &Vec<char>, i: usize) -> (r: Option<((String, ColumnValue), usize)>)
    ensures
        (r is Some) == (sp_pair(cs@, i as int) is Some),
        r matches Some(p) ==> (sp_pair(cs@, i as int) matches Some(sp) && (p.0.0@, val_model(
            p.0.1,
        )) == sp.0 && p.1 == sp.1),
{
    match parse_string(cs, i) {
        None => None,
        Some((k, j1)) => {
            if j1 < cs.len() && cs[j1] == ':' {
                assert(cs@.subrange(j1 as int, j1 as int + 1) =~= seq![':']);
                match parse_value(cs, j1 + 1) {
                    None => None,
                    Some((v, j3)) => Some(((k, v), j3)),
                }
            } else {
                proof {
                    if 0 <= j1 && j1 + 1 <= cs@.len() && cs@.subrange(j1 as int, j1 as int + 1)
                        == seq![':'] {
                        assert(cs@[j1 as int] == cs@.subrange(j1 as int, j1 as int + 1)[0]);
                        assert(false);
                    }
                }
                None
            }
        },
    }
}

/// Reads one or more comma-separated columns and the closing brace.
fn parse_items(cs: &Vec<char>, i: usize) -> (r: Option<(Vec<(String, ColumnValue)>, usize)>)
    ensures
        (r is Some) == (sp_items(cs@, i as int) is Some),
        r matches Some(p) ==> (sp_items(cs@, i as int) matches Some(sp) && cols_model(p.0@) == sp.0
            && p.1 == sp.1),
    decreases cs@.len() - i,
{
    match parse_pair(cs, i) {
        None => None,
        Some((p, j)) => {
            proof {
                lemma_sp_pair_bounds(cs@, i as int);
            }
            if j < cs.len() && cs[j] == ',' {
                match parse_items(cs, j + 1) {
                    Some((mut m, j2)) => {
                        m.insert(0, p);
                        proof {
                            let sp = sp_items(cs@, i as int)->Some_0;
                            assert(cols_model(m@) =~= sp.0);
                        }
                        Some((m, j2))
                    },
                    None => None,
                }
            } else if j < cs.len() && cs[j] == '}' {
                let mut m: Vec<(String, ColumnValue)> = Vec::new();
                m.push(p);
                proof {
                    let sp = sp_items(cs@, i as int)->Some_0;
                    assert(cols_model(m@) =~= sp.0);
                }
                Some((m, j + 1))
            } else {
                None
            }
        },
    }
}

/// Reads a column map, braces included.
pub(crate) fn parse_map(cs: &Vec<char>, i: usize) -> (r: Option<(Vec<(String, ColumnValue)>, usize)>)
    ensures
        (r is Some) == (sp_map(cs@, i as int) is Some),
        r matches Some(p) ==> (sp_map(cs@, i as int) matches Some(sp) && cols_model(p.0@) == sp.0
            && p.1 == sp.1),
{
    if i >= cs.len() || cs[i] != '{' {
        None
    } else if i + 1 < cs.len() && cs[i + 1] == '}' {
        let m: Vec<(String, ColumnValue)> = Vec::new();
        assert(cols_model(m@) =~= Seq::<(Seq<char>, ValModel)>::empty());
        Some((m, i + 2))
    } else {
        parse_items(cs, i + 1)
    }
}

/// Reads a column map or the null placeholder.
pub(crate) fn parse_opt_map(cs: &Vec<char>, i: usize) -> (r: Option<(Option<Vec<(String, ColumnValue)>>, usize)>)
    ensures
        (r is Some) == (sp_opt_map(cs@, i as int) is Some),
        r matches Some(p) ==> (sp_opt_map(cs@, i as int) matches Some(sp) && opt_cols_model(p.0)
            == sp.0 && p.1 == sp.1),
{
    if i >= cs.len() {
        None
    } else if cs[i] == 'n' {
        match expect4(cs, i, 'n', 'u', 'l', 'l') {
            Some(j) => Some((None, j)),
            None => None,
        }
    } else {
        match parse_map(cs, i) {
            Some((m, j)) => Some((Some(m), j)),
            None => None,
        }
    }
}

/// Reads a string or the null placeholder.
fn parse_opt_str(cs: &Vec<char>, i: usize) -> (r: Option<(Option<String>, usize)>)
    ensures
        (r is Some) == (sp_opt_str(cs@, i as int) is Some),
        r matches Some(p) ==> (sp_opt_str(cs@, i as int) matches Some(sp) && opt_str_model(p.0)
            == sp.0 && p.1 == sp.1),
{
    if i >= cs.len() {
        None
    } else if cs[i] == 'n' {
        match expect4(cs, i, 'n', 'u', 'l', 'l') {
            Some(j) => Some((None, j)),
            None => None,
        }
    } else {
        match parse_string(cs, i) {
            Some((s, j)) => Some((Some(s), j)),
            None => None,
        }
    }
}

/// Compares two strings character by character.
pub fn str_eq(a: &str, b: &str) -> (r: bool)
    ensures
        r == (a@ == b@),
{
    let na = a.unicode_len();
    let nb = b.unicode_len();
    if na != nb {
        return false;
    }
    let mut i: usize = 0;
    while i < na
        invariant
            na == a@.len(),
            na == b@.len(),
            i <= na,
            forall|q: int| 0 <= q < i ==> a@[q] == b@[q],
        decreases na - i,
    {
        if a.get_char(i) != b.get_char(i) {
            return false;
        }
        i += 1;
    }
    assert(a@ =~= b@);
    true
}

/// Maps an operation's wire name back to the operation.
pub(crate) fn op_from_str(s: &str) -> (r: Option<ChangeOperation>)
    ensures
        r == sp_op(s@),
{
    if str_eq(s, "insert") {
        Some(ChangeOperation::Insert)
    } else if str_eq(s, "update") {
        Some(ChangeOperation::Update)
    } else if str_eq(s, "delete") {
        Some(ChangeOperation::Delete)
    } else {
        None
    }
}

fn parse_wire_tail(
    cs: &Vec<char>,
    i: usize,
    id: String,
    timestamp: String,
    database: String,
    table: String,
) -> (r: Option<ChangeEvent>)
    ensures
        (r is Some) == (sp_wire_tail(cs@, i as int, id@, timestamp@, database@, table@) is Some),
        r matches Some(p) ==> (sp_wire_tail(cs@, i as int, id@, timestamp@, database@, table@)
            matches Some(m) && p.model() == m),
{
    let i1 = match expect_str(cs, i, ",\"operation\":") {
        Some(j) => j,
        None => {
            return None;
        },
    };
    let (ops, i2) = match parse_string(cs, i1) {
        Some(p) => p,
        None => {
            return None;
        },
    };
    let operation = match op_from_str(ops.as_str()) {
        Some(op) => op,
        None => {
            return None;
        },
    };
    let i3 = match expect_str(cs, i2, ",\"before\":") {
        Some(j) => j,
        None => {
            return None;
        },
    };
    let (before, i4) = match parse_opt_map(cs, i3) {
        Some(p) => p,
        None => {
            return None;
        },
    };
    let i5 = match expect_str(cs, i4, ",\"after\":") {
        Some(j) => j,
        None => {
            return None;
        },
    };
    let (after, i6) = match parse_opt_map(cs, i5) {
        Some(p) => p,
        None => {
            return None;
        },
    };
    let i7 = match expect_str(cs, i6, ",\"primary_key\":") {
        Some(j) => j,
        None => {
            return None;
        },
    };
    let (primary_key, i8) = match parse_map(cs, i7) {
        Some(p) => p,
        None => {
            return None;
        },
    };
    let i9 = match expect_str(cs, i8, ",\"transaction_id\":") {
        Some(j) => j,
        None => {
            return None;
        },
    };
    let (transaction_id, i10) = match parse_opt_str(cs, i9) {
        Some(p) => p,
        None => {
            return None;
        },
    };
    let j = match expect_str(cs, i10, "}") {
        Some(j) => j,
        None => {
            return None;
        },
    };
    if j != cs.len() {
        return None;
    }
    Some(
        ChangeEvent {
            id,
            timestamp,
            database,
            table,
            operation,
            before,
            after,
            primary_key,
            transaction_id,
        },
    )
}

/// Parses a wire payload back into an event.  The result is exactly what
/// the encoding's reading function gives: `Some` precisely for the
/// payloads the encoding admits.  For a payload written by `to_wire` the
/// parsed event is structurally identical to the serialized one (see
/// `lemma_wire_round_trip`), and whatever parses re-serializes to
/// exactly the input (see `lemma_wire_parse_sound`).
pub fn parse_wire(s: &str) -> (r: Option<ChangeEvent>)
    ensures
        (r is Some) == (sp_wire(s@) is Some),
        r matches Some(p) ==> (sp_wire(s@) matches Some(m) && p.model() == m),
{
    let cs = str_to_chars(s);
    let i1 = match expect_str(&cs, 0, "{\"id\":") {
        Some(j) => j,
        None => {
            return None;
        },
    };
    let (id, i2) = match parse_string(&cs, i1) {
        Some(p) => p,
        None => {
            return None;
        },
    };
    let i3 = match expect_str(&cs, i2, ",\"timestamp\":") {
        Some(j) => j,
        None => {
            return None;
        },
    };
    let (timestamp, i4) = match parse_string(&cs, i3) {
        Some(p) => p,
        None => {
            return None;
        },
    };
    parse_wire_mid(&cs, i4, id, timestamp)
}

fn parse_wire_mid(cs: &Vec<char>, i: usize, id: String, timestamp: String) -> (r: Option<
    ChangeEvent,
>)
    ensures
        (r is Some) == (sp_wire_mid(cs@, i as int, id@, timestamp@) is Some),
        r matches Some(p) ==> (sp_wire_mid(cs@, i as int, id@, timestamp@) matches Some(m)
            && p.model() == m),
{
    let i5 = match expect_str(cs, i, ",\"database\":") {
        Some(j) => j,
        None => {
            return None;
        },
    };
    let (database, i6) = match parse_string(cs, i5) {
        Some(p) => p,
        None => {
            return None;
        },
    };
    let i7 = match expect_str(cs, i6, ",\"table\":") {
        Some(j) => j,
        None => {
            return None;
        },
    };
    let (table, i8) = match parse_string(cs, i7) {
        Some(p) => p,
        None => {
            return None;
        },
    };
    parse_wire_tail(cs, i8, id, timestamp, database, table)
}

// ---------------------------------------------------------------------
// The round trip: reading a written payload gives back the same event.
// ---------------------------------------------------------------------

/// Concatenation of character sequences associates.
pub proof fn lemma_assoc(a: Seq<char>, b: Seq<char>, c: Seq<char>)
    ensures
        (a + b) + c == a + (b + c),
{
    assert((a + b) + c =~= a + (b + c));
}

/// A written concatenation splits into its written parts.
pub proof fn lemma_peel(cs: Seq<char>, i: int, a: Seq<char>, b: Seq<char>)
    requires
        0 <= i,
        i + a.len() + b.len() <= cs.len(),
        cs.subrange(i, i + a.len() + b.len()) == a + b,
    ensures
        cs.subrange(i, i + a.len()) == a,
        cs.subrange(i + a.len(), i + a.len() + b.len()) == b,
{
    let la = a.len() as int;
    let lb = b.len() as int;
    assert forall|k: int| 0 <= k < la implies cs.subrange(i, i + la)[k] == a[k] by {
        assert(cs.subrange(i, i + la)[k] == cs[i + k]);
        assert(cs.subrange(i, i + la + lb)[k] == cs[i + k]);
        assert((a + b)[k] == a[k]);
    }
    assert(cs.subrange(i, i + la) =~= a);
    assert forall|k: int| 0 <= k < lb implies cs.subrange(i + la, i + la + lb)[k] == b[k] by {
        assert(cs.subrange(i + la, i + la + lb)[k] == cs[i + la + k]);
        assert(cs.subrange(i, i + la + lb)[la + k] == cs[i + la + k]);
        assert((a + b)[la + k] == b[k]);
    }
    assert(cs.subrange(i + la, i + la + lb) =~= b);
}

/// Written parts at consecutive positions join into one written
/// concatenation.
pub proof fn lemma_join(cs: Seq<char>, i: int, j: int, k: int, a: Seq<char>, b: Seq<char>)
    requires
        0 <= i <= j <= k <= cs.len(),
        cs.subrange(i, j) == a,
        cs.subrange(j, k) == b,
        j - i == a.len(),
        k - j == b.len(),
    ensures
        cs.subrange(i, k) == a + b,
{
    assert forall|q: int| 0 <= q < k - i implies cs.subrange(i, k)[q] == (a + b)[q] by {
        assert(cs.subrange(i, k)[q] == cs[i + q]);
        if q < a.len() {
            assert(cs.subrange(i, j)[q] == cs[i + q]);
        } else {
            assert(cs.subrange(j, k)[q - a.len()] == cs[j + (q - a.len())]);
        }
    }
    assert(cs.subrange(i, k) =~= a + b);
}

/// A read string body was written exactly as read: the consumed input is
/// the written form of the result.
proof fn lemma_sp_str_body_sound(cs: Seq<char>, i: int)
    ensures
        sp_str_body(cs, i) matches Some(r) ==> 0 <= i && i < r.1 <= cs.len() && cs.subrange(
            i,
            r.1,
        ) == str_body(r.0) + seq!['"'],
    decreases cs.len() - i,
{
    if i < 0 || i >= cs.len() {
    } else if cs[i] == '"' {
        if sp_str_body(cs, i) is Some { let r = sp_str_body(cs, i)->Some_0;
            assert(r.0 =~= Seq::<char>::empty());
            assert(str_body(r.0) + seq!['"'] =~= seq!['"']);
            assert(cs.subrange(i, i + 1) =~= seq!['"']);
        }
    } else if cs[i] == '\\' {
        if i + 1 < cs.len() && (cs[i + 1] == '"' || cs[i + 1] == '\\') {
            lemma_sp_str_body_sound(cs, i + 2);
            if sp_str_body(cs, i + 2) is Some { let r2 = sp_str_body(cs, i + 2)->Some_0;
                let v = seq![cs[i + 1]] + r2.0;
                assert(cs.subrange(i, i + 2) =~= seq!['\\', cs[i + 1]]);
                lemma_join(
                    cs,
                    i,
                    i + 2,
                    r2.1,
                    seq!['\\', cs[i + 1]],
                    str_body(r2.0) + seq!['"'],
                );
                assert(v[0] == cs[i + 1]);
                assert(v.skip(1) =~= r2.0);
                assert(esc_char(v[0]) == seq!['\\', cs[i + 1]]);
                assert(str_body(v) == esc_char(v[0]) + str_body(r2.0));
                assert(seq!['\\', cs[i + 1]] + (str_body(r2.0) + seq!['"']) =~= str_body(v)
                    + seq!['"']);
            }
        }
    } else {
        lemma_sp_str_body_sound(cs, i + 1);
        if sp_str_body(cs, i + 1) is Some { let r2 = sp_str_body(cs, i + 1)->Some_0;
            let v = seq![cs[i]] + r2.0;
            assert(cs.subrange(i, i + 1) =~= seq![cs[i]]);
            lemma_join(cs, i, i + 1, r2.1, seq![cs[i]], str_body(r2.0) + seq!['"']);
            assert(v[0] == cs[i]);
            assert(v.skip(1) =~= r2.0);
            assert(esc_char(v[0]) == seq![cs[i]]);
            assert(str_body(v) == esc_char(v[0]) + str_body(r2.0));
            assert(seq![cs[i]] + (str_body(r2.0) + seq!['"']) =~= str_body(v) + seq!['"']);
        }
    }
}

/// A read string was written exactly as read.
proof fn lemma_sp_string_sound(cs: Seq<char>, i: int)
    ensures
        sp_string(cs, i) matches Some(r) ==> 0 <= i && i < r.1 <= cs.len() && cs.subrange(i, r.1)
            == str_render(r.0),
{
    if 0 <= i && i < cs.len() && cs[i] == '"' {
        lemma_sp_str_body_sound(cs, i + 1);
        if sp_str_body(cs, i + 1) is Some { let r2 = sp_str_body(cs, i + 1)->Some_0;
            assert(cs.subrange(i, i + 1) =~= seq!['"']);
            lemma_join(cs, i, i + 1, r2.1, seq!['"'], str_body(r2.0) + seq!['"']);
            assert(seq!['"'] + (str_body(r2.0) + seq!['"']) =~= str_render(r2.0));
        }
    }
}

/// A read number run was written exactly as read, is made of number
/// characters, and is maximal.
proof fn lemma_sp_num_sound(cs: Seq<char>, i: int)
    requires
        0 <= i <= cs.len(),
    ensures
        i <= sp_num(cs, i).1 <= cs.len(),
        cs.subrange(i, sp_num(cs, i).1) == sp_num(cs, i).0,
        forall|k: int| 0 <= k < sp_num(cs, i).0.len() ==> is_num_char(sp_num(cs, i).0[k]),
        sp_num(cs, i).1 == cs.len() || !is_num_char(cs[sp_num(cs, i).1]),
    decreases cs.len() - i,
{
    if i < cs.len() && is_num_char(cs[i]) {
        lemma_sp_num_sound(cs, i + 1);
        let r2 = sp_num(cs, i + 1);
        let v = seq![cs[i]] + r2.0;
        assert(cs.subrange(i, i + 1) =~= seq![cs[i]]);
        lemma_join(cs, i, i + 1, r2.1, seq![cs[i]], r2.0);
        assert(forall|k: int| 0 <= k < v.len() ==> is_num_char(v[k])) by {
            assert(v[0] == cs[i]);
            assert(forall|k: int| 1 <= k < v.len() ==> v[k] == r2.0[k - 1]);
        }
    } else {
        assert(cs.subrange(i, i) =~= Seq::<char>::empty());
    }
}

/// A read value was written exactly as read, and is well-formed.
proof fn lemma_sp_value_sound(cs: Seq<char>, i: int)
    ensures
        sp_value(cs, i) matches Some(r) ==> 0 <= i && i < r.1 <= cs.len() && cs.subrange(i, r.1)
            == val_render(r.0) && val_wf(r.0),
{
    if 0 <= i && i < cs.len() {
        if cs[i] == '"' {
            lemma_sp_string_sound(cs, i);
        } else if (48 <= cs[i] as u32 && cs[i] as u32 <= 57) || cs[i] == '-' {
            lemma_sp_num_sound(cs, i);
            let r = sp_num(cs, i);
            assert(r.0.len() > 0 && r.0[0] == cs[i]) by {
                assert(r.0 == seq![cs[i]] + sp_num(cs, i + 1).0);
            }
        }
    }
}

/// A read column was written exactly as read, and its value is
/// well-formed.
proof fn lemma_sp_pair_sound(cs: Seq<char>, i: int)
    ensures
        sp_pair(cs, i) matches Some(r) ==> 0 <= i && i < r.1 <= cs.len() && cs.subrange(i, r.1)
            == pair_render(r.0) && val_wf(r.0.1),
{
    lemma_sp_string_sound(cs, i);
    if sp_string(cs, i) is Some { let _p = sp_string(cs, i)->Some_0; let k = _p.0; let j1 = _p.1;
        if sp_expect(cs, j1, seq![':']) is Some { let j2 = sp_expect(cs, j1, seq![':'])->Some_0;
            lemma_sp_value_sound(cs, j2);
            if sp_value(cs, j2) is Some { let _p = sp_value(cs, j2)->Some_0; let v = _p.0; let j3 = _p.1;
                lemma_join(cs, i, j1, j2, str_render(k), seq![':']);
                lemma_join(cs, i, j2, j3, str_render(k) + seq![':'], val_render(v));
                assert((str_render(k) + seq![':']) + val_render(v) =~= pair_render((k, v)));
            }
        }
    }
}

/// Read columns were written exactly as read, closing brace included.
proof fn lemma_sp_items_sound(cs: Seq<char>, i: int)
    ensures
        sp_items(cs, i) matches Some(r) ==> 0 <= i && i < r.1 <= cs.len() && r.0.len() >= 1
            && cols_wf(r.0) && cs.subrange(i, r.1) == items_render(r.0) + seq!['}'],
    decreases cs.len() - i,
{
    lemma_sp_pair_sound(cs, i);
    lemma_sp_pair_bounds(cs, i);
    if sp_pair(cs, i) is Some { let _p = sp_pair(cs, i)->Some_0; let p = _p.0; let j = _p.1;
        if j < cs.len() && cs[j] == ',' {
            lemma_sp_items_sound(cs, j + 1);
            if sp_items(cs, j + 1) is Some { let _p = sp_items(cs, j + 1)->Some_0; let m2 = _p.0; let j2 = _p.1;
                let m = seq![p] + m2;
                assert(cs.subrange(j, j + 1) =~= seq![',']);
                lemma_join(cs, i, j, j + 1, pair_render(p), seq![',']);
                lemma_join(
                    cs,
                    i,
                    j + 1,
                    j2,
                    pair_render(p) + seq![','],
                    items_render(m2) + seq!['}'],
                );
                assert(m[0] == p);
                assert(m.skip(1) =~= m2);
                assert(m.len() >= 2);
                assert(items_render(m) == pair_render(p) + seq![','] + items_render(m2));
                assert((pair_render(p) + seq![',']) + (items_render(m2) + seq!['}'])
                    =~= items_render(m) + seq!['}']);
                assert(cols_wf(m)) by {
                    assert(forall|k: int| 1 <= k < m.len() ==> m[k] == m2[k - 1]);
                }
            }
        } else if j < cs.len() && cs[j] == '}' {
            let m = seq![p];
            assert(cs.subrange(j, j + 1) =~= seq!['}']);
            lemma_join(cs, i, j, j + 1, pair_render(p), seq!['}']);
            assert(m[0] == p);
            assert(items_render(m) == pair_render(p));
            assert(pair_render(p) + seq!['}'] =~= items_render(m) + seq!['}']);
            assert(cols_wf(m));
        }
    }
}

/// A read column map was written exactly as read.
proof fn lemma_sp_map_sound(cs: Seq<char>, i: int)
    ensures
        sp_map(cs, i) matches Some(r) ==> 0 <= i && i < r.1 <= cs.len() && cols_wf(r.0)
            && cs.subrange(i, r.1) == map_render(r.0),
{
    if !(i < 0 || i >= cs.len() || cs[i] != '{') {
        if i + 1 < cs.len() && cs[i + 1] == '}' {
            assert(cs.subrange(i, i + 2) =~= seq!['{', '}']);
            assert(items_render(Seq::<(Seq<char>, ValModel)>::empty())
                == Seq::<char>::empty());
            assert(map_render(Seq::<(Seq<char>, ValModel)>::empty()) =~= seq!['{', '}']);
            assert(cols_wf(Seq::<(Seq<char>, ValModel)>::empty()));
        } else {
            lemma_sp_items_sound(cs, i + 1);
            if sp_items(cs, i + 1) is Some { let _p = sp_items(cs, i + 1)->Some_0; let m = _p.0; let j = _p.1;
                assert(cs.subrange(i, i + 1) =~= seq!['{']);
                lemma_join(cs, i, i + 1, j, seq!['{'], items_render(m) + seq!['}']);
                assert(seq!['{'] + (items_render(m) + seq!['}']) =~= map_render(m));
            }
        }
    }
}

/// A read optional map was written exactly as read.
proof fn lemma_sp_opt_map_sound(cs: Seq<char>, i: int)
    ensures
        sp_opt_map(cs, i) matches Some(r) ==> 0 <= i && i < r.1 <= cs.len() && (
        r.0 matches Some(m) ==> cols_wf(m)) && cs.subrange(i, r.1) == opt_map_render(r.0),
{
    if 0 <= i && i < cs.len() {
        if cs[i] == 'n' {
        } else {
            lemma_sp_map_sound(cs, i);
        }
    }
}

/// A read optional string was written exactly as read.
proof fn lemma_sp_opt_str_sound(cs: Seq<char>, i: int)
    ensures
        sp_opt_str(cs, i) matches Some(r) ==> 0 <= i && i < r.1 <= cs.len() && cs.subrange(i, r.1)
            == opt_str_render(r.0),
{
    if 0 <= i && i < cs.len() {
        if cs[i] == 'n' {
        } else {
            lemma_sp_string_sound(cs, i);
        }
    }
}

/// Reading a written string body gives back the string.
proof fn lemma_sp_str_body_of(cs: Seq<char>, i: int, s: Seq<char>)
    requires
        0 <= i,
        i + str_body(s).len() + 1 <= cs.len(),
        cs.subrange(i, i + str_body(s).len() + 1) == str_body(s) + seq!['"'],
    ensures
        sp_str_body(cs, i) == Some((s, i + str_body(s).len() + 1)),
    decreases s.len(),
{
    let b = str_body(s);
    let l = b.len() as int;
    if s.len() == 0 {
        assert(cs.subrange(i, i + l + 1)[0] == cs[i]);
        assert((b + seq!['"'])[0] == '"');
        assert(cs[i] == '"');
    } else {
        let e = esc_char(s[0]);
        let b2 = str_body(s.skip(1));
        assert(b == e + b2);
        if s[0] == '"' || s[0] == '\\' {
            assert(e == seq!['\\', s[0]]);
            assert(b[0] == '\\');
            assert(b[1] == s[0]);
            assert(cs.subrange(i, i + l + 1)[0] == cs[i]);
            assert((b + seq!['"'])[0] == b[0]);
            assert(cs[i] == '\\');
            assert(cs.subrange(i, i + l + 1)[1] == cs[i + 1]);
            assert((b + seq!['"'])[1] == b[1]);
            assert(cs[i + 1] == s[0]);
            assert(b + seq!['"'] =~= seq!['\\', s[0]] + (b2 + seq!['"']));
            lemma_peel(cs, i, seq!['\\', s[0]], b2 + seq!['"']);
            lemma_sp_str_body_of(cs, i + 2, s.skip(1));
            assert(seq![cs[i + 1]] + s.skip(1) =~= s);
        } else {
            assert(e == seq![s[0]]);
            assert(b[0] == s[0]);
            assert(cs.subrange(i, i + l + 1)[0] == cs[i]);
            assert((b + seq!['"'])[0] == b[0]);
            assert(cs[i] == s[0]);
            assert(b + seq!['"'] =~= seq![s[0]] + (b2 + seq!['"']));
            lemma_peel(cs, i, seq![s[0]], b2 + seq!['"']);
            lemma_sp_str_body_of(cs, i + 1, s.skip(1));
            assert(seq![cs[i]] + s.skip(1) =~= s);
        }
    }
}

/// Reading a written string gives back the string.
proof fn lemma_sp_string_of(cs: Seq<char>, i: int, s: Seq<char>)
    requires
        0 <= i,
        i + str_render(s).len() <= cs.len(),
        cs.subrange(i, i + str_render(s).len()) == str_render(s),
    ensures
        sp_string(cs, i) == Some((s, i + str_render(s).len())),
{
    assert(str_render(s) =~= seq!['"'] + (str_body(s) + seq!['"']));
    lemma_peel(cs, i, seq!['"'], str_body(s) + seq!['"']);
    assert(cs.subrange(i, i + 1)[0] == cs[i]);
    assert(cs[i] == '"');
    lemma_sp_str_body_of(cs, i + 1, s);
}

/// Reading a written number run gives back its digits.
proof fn lemma_sp_num_of(cs: Seq<char>, i: int, s: Seq<char>)
    requires
        0 <= i,
        i + s.len() <= cs.len(),
        cs.subrange(i, i + s.len()) == s,
        forall|k: int| 0 <= k < s.len() ==> is_num_char(s[k]),
        i + s.len() == cs.len() || !is_num_char(cs[i + s.len()]),
    ensures
        sp_num(cs, i) == (s, i + s.len()),
    decreases s.len(),
{
    if s.len() == 0 {
        assert(sp_num(cs, i) == (Seq::<char>::empty(), i));
        assert(Seq::<char>::empty() =~= s);
    } else {
        assert(cs.subrange(i, i + s.len())[0] == cs[i]);
        assert(cs[i] == s[0]);
        assert(is_num_char(cs[i]));
        assert(s =~= seq![s[0]] + s.skip(1));
        lemma_peel(cs, i, seq![s[0]], s.skip(1));
        lemma_sp_num_of(cs, i + 1, s.skip(1));
        assert(seq![cs[i]] + s.skip(1) =~= s);
    }
}

/// Reading a written value gives back the value.
proof fn lemma_sp_value_of(cs: Seq<char>, i: int, v: ValModel)
    requires
        val_wf(v),
        0 <= i,
        i + val_render(v).len() <= cs.len(),
        cs.subrange(i, i + val_render(v).len()) == val_render(v),
        i + val_render(v).len() == cs.len() || !is_num_char(cs[i + val_render(v).len()]),
    ensures
        sp_value(cs, i) == Some((v, i + val_render(v).len())),
{
    let r = val_render(v);
    let l = r.len() as int;
    assert(cs.subrange(i, i + l)[0] == cs[i]);
    assert(cs[i] == r[0]);
    match v {
        ValModel::Null => {
            assert(cs[i] == 'n');
        },
        ValModel::Bool(bv) => {
            if bv {
                assert(cs[i] == 't');
            } else {
                assert(cs[i] == 'f');
            }
        },
        ValModel::Str(s) => {
            assert(r[0] == '"');
            lemma_sp_string_of(cs, i, s);
        },
        ValModel::Num(s) => {
            assert(cs[i] == s[0]);
            lemma_sp_num_of(cs, i, s);
        },
    }
}

/// Reading a written column gives back the column.
proof fn lemma_sp_pair_of(cs: Seq<char>, i: int, p: (Seq<char>, ValModel))
    requires
        val_wf(p.1),
        0 <= i,
        i + pair_render(p).len() <= cs.len(),
        cs.subrange(i, i + pair_render(p).len()) == pair_render(p),
        i + pair_render(p).len() == cs.len() || !is_num_char(cs[i + pair_render(p).len()]),
    ensures
        sp_pair(cs, i) == Some((p, i + pair_render(p).len())),
{
    let a = str_render(p.0);
    let b = val_render(p.1);
    assert(pair_render(p) =~= a + (seq![':'] + b));
    lemma_peel(cs, i, a, seq![':'] + b);
    lemma_peel(cs, i + a.len(), seq![':'], b);
    lemma_sp_string_of(cs, i, p.0);
    let j1 = i + a.len();
    assert(cs.subrange(j1, j1 + 1)[0] == cs[j1]);
    assert(cs[j1] == ':');
    assert(cs.subrange(j1, j1 + 1) =~= seq![':']);
    assert(sp_expect(cs, j1, seq![':']) == Some(j1 + 1));
    lemma_sp_value_of(cs, j1 + 1, p.1);
}

/// Reading written columns up to the closing brace gives them back.
proof fn lemma_sp_items_of(cs: Seq<char>, i: int, mm: ColsModel)
    requires
        mm.len() >= 1,
        cols_wf(mm),
        0 <= i,
        i + items_render(mm).len() + 1 <= cs.len(),
        cs.subrange(i, i + items_render(mm).len() + 1) == items_render(mm) + seq!['}'],
    ensures
        sp_items(cs, i) == Some((mm, i + items_render(mm).len() + 1)),
    decreases mm.len(),
{
    let w = items_render(mm);
    if mm.len() == 1 {
        let pr = pair_render(mm[0]);
        assert(w == pr);
        assert(w + seq!['}'] =~= pr + seq!['}']);
        lemma_peel(cs, i, pr, seq!['}']);
        let j = i + pr.len();
        assert(cs.subrange(j, j + 1)[0] == cs[j]);
        assert(cs[j] == '}');
        assert(val_wf(mm[0].1));
        lemma_sp_pair_of(cs, i, mm[0]);
        assert(seq![mm[0]] =~= mm);
    } else {
        let pr = pair_render(mm[0]);
        let w2 = items_render(mm.skip(1));
        assert(w == pr + seq![','] + w2);
        assert(w + seq!['}'] =~= pr + (seq![','] + (w2 + seq!['}'])));
        lemma_peel(cs, i, pr, seq![','] + (w2 + seq!['}']));
        lemma_peel(cs, i + pr.len(), seq![','], w2 + seq!['}']);
        let j = i + pr.len();
        assert(cs.subrange(j, j + 1)[0] == cs[j]);
        assert(cs[j] == ',');
        assert(val_wf(mm[0].1));
        lemma_sp_pair_of(cs, i, mm[0]);
        assert(cols_wf(mm.skip(1))) by {
            assert(forall|k: int|
                0 <= k < mm.skip(1).len() ==> mm.skip(1)[k] == mm[k + 1]);
        }
        lemma_sp_items_of(cs, j + 1, mm.skip(1));
        assert(seq![mm[0]] + mm.skip(1) =~= mm);
    }
}

/// Reading a written column map gives back the map.
proof fn lemma_sp_map_of(cs: Seq<char>, i: int, mm: ColsModel)
    requires
        cols_wf(mm),
        0 <= i,
        i + map_render(mm).len() <= cs.len(),
        cs.subrange(i, i + map_render(mm).len()) == map_render(mm),
    ensures
        sp_map(cs, i) == Some((mm, i + map_render(mm).len())),
{
    let w = items_render(mm);
    assert(map_render(mm) =~= seq!['{'] + (w + seq!['}']));
    lemma_peel(cs, i, seq!['{'], w + seq!['}']);
    assert(cs.subrange(i, i + 1)[0] == cs[i]);
    assert(cs[i] == '{');
    if mm.len() == 0 {
        assert(w == Seq::<char>::empty());
        assert(cs.subrange(i + 1, i + 2)[0] == cs[i + 1]);
        assert(cs[i + 1] == '}');
        assert(Seq::<(Seq<char>, ValModel)>::empty() =~= mm);
    } else {
        let pr = pair_render(mm[0]);
        assert(w[0] == pr[0]);
        assert(pr[0] == str_render(mm[0].0)[0]);
        assert(str_render(mm[0].0)[0] == '"');
        assert(cs.subrange(i + 1, i + 1 + w.len() + 1)[0] == cs[i + 1]);
        assert(cs[i + 1] == '"');
        lemma_sp_items_of(cs, i + 1, mm);
    }
}

/// Reading a written optional map gives it back.
proof fn lemma_sp_opt_map_of(cs: Seq<char>, i: int, om: Option<ColsModel>)
    requires
        om matches Some(mm) ==> cols_wf(mm),
        0 <= i,
        i + opt_map_render(om).len() <= cs.len(),
        cs.subrange(i, i + opt_map_render(om).len()) == opt_map_render(om),
    ensures
        sp_opt_map(cs, i) == Some((om, i + opt_map_render(om).len())),
{
    let r = opt_map_render(om);
    assert(cs.subrange(i, i + r.len())[0] == cs[i]);
    match om {
        None => {
            assert(cs[i] == 'n');
            assert(cs.subrange(i, i + 4) =~= seq!['n', 'u', 'l', 'l']);
        },
        Some(mm) => {
            assert(cs[i] == '{');
            lemma_sp_map_of(cs, i, mm);
        },
    }
}

/// Reading a written optional string gives it back.
proof fn lemma_sp_opt_str_of(cs: Seq<char>, i: int, os: Option<Seq<char>>)
    requires
        0 <= i,
        i + opt_str_render(os).len() <= cs.len(),
        cs.subrange(i, i + opt_str_render(os).len()) == opt_str_render(os),
    ensures
        sp_opt_str(cs, i) == Some((os, i + opt_str_render(os).len())),
{
    let r = opt_str_render(os);
    assert(cs.subrange(i, i + r.len())[0] == cs[i]);
    match os {
        None => {
            assert(cs[i] == 'n');
            assert(cs.subrange(i, i + 4) =~= seq!['n', 'u', 'l', 'l']);
        },
        Some(s) => {
            assert(cs[i] == str_render(s)[0]);
            assert(cs[i] == '"');
            lemma_sp_string_of(cs, i, s);
        },
    }
}

/// The wire name of an operation reads back as that operation.
proof fn lemma_sp_op_round(op: ChangeOperation)
    ensures
        sp_op(spec_operation_str(op)) == Some(op),
{
    reveal_strlit("insert");
    reveal_strlit("update");
    reveal_strlit("delete");
    match op {
        ChangeOperation::Insert => {
        },
        ChangeOperation::Update => {
            assert("update"@[0] != "insert"@[0]);
        },
        ChangeOperation::Delete => {
            assert("delete"@[0] != "insert"@[0]);
            assert("delete"@[0] != "update"@[0]);
        },
    }
}

/// Reading the written fields from `operation` on gives them back.
#[verifier::rlimit(100)]
proof fn lemma_sp_wire_tail_of(cs: Seq<char>, i8: int, m: EventModel)
    requires
        event_wf(m),
        0 <= i8 <= cs.len(),
        cs.subrange(i8, cs.len() as int) == wire_from_operation(m),
    ensures
        sp_wire_tail(cs, i8, m.id, m.timestamp, m.database, m.table) == Some(m),
{
    let l5 = ",\"operation\":"@;
    let p5 = str_render(spec_operation_str(m.operation));
    let r5 = wire_from_before(m);
    lemma_assoc(l5, p5, r5);
    assert(cs.subrange(i8, cs.len() as int).len() == cs.len() - i8);
    assert(wire_from_operation(m) == (l5 + p5) + r5);
    assert(((l5 + p5) + r5).len() == l5.len() + p5.len() + r5.len());
    assert(cs.len() - i8 == l5.len() + p5.len() + r5.len());
    assert(cs.subrange(i8, i8 + l5.len() + (p5 + r5).len()) == l5 + (p5 + r5));
    lemma_peel(cs, i8, l5, p5 + r5);
    lemma_peel(cs, i8 + l5.len(), p5, r5);
    let i9 = i8 + l5.len();
    let i10 = i9 + p5.len();
    assert(sp_expect(cs, i8, l5) == Some(i9));
    lemma_sp_string_of(cs, i9, spec_operation_str(m.operation));
    lemma_sp_op_round(m.operation);

    let l6 = ",\"before\":"@;
    let p6 = opt_map_render(m.before);
    let r6 = wire_from_after(m);
    lemma_assoc(l6, p6, r6);
    lemma_peel(cs, i10, l6, p6 + r6);
    lemma_peel(cs, i10 + l6.len(), p6, r6);
    let i11 = i10 + l6.len();
    let i12 = i11 + p6.len();
    assert(sp_expect(cs, i10, l6) == Some(i11));
    lemma_sp_opt_map_of(cs, i11, m.before);

    let l7 = ",\"after\":"@;
    let p7 = opt_map_render(m.after);
    let r7 = wire_from_primary_key(m);
    lemma_assoc(l7, p7, r7);
    lemma_peel(cs, i12, l7, p7 + r7);
    lemma_peel(cs, i12 + l7.len(), p7, r7);
    let i13 = i12 + l7.len();
    let i14 = i13 + p7.len();
    assert(sp_expect(cs, i12, l7) == Some(i13));
    lemma_sp_opt_map_of(cs, i13, m.after);

    let l8 = ",\"primary_key\":"@;
    let p8 = map_render(m.primary_key);
    let r8 = wire_from_transaction_id(m);
    lemma_assoc(l8, p8, r8);
    lemma_peel(cs, i14, l8, p8 + r8);
    lemma_peel(cs, i14 + l8.len(), p8, r8);
    let i15 = i14 + l8.len();
    let i16 = i15 + p8.len();
    assert(sp_expect(cs, i14, l8) == Some(i15));
    lemma_sp_map_of(cs, i15, m.primary_key);

    let l9 = ",\"transaction_id\":"@;
    let p9 = opt_str_render(m.transaction_id);
    let r9 = "}"@;
    lemma_assoc(l9, p9, r9);
    lemma_peel(cs, i16, l9, p9 + r9);
    lemma_peel(cs, i16 + l9.len(), p9, r9);
    let i17 = i16 + l9.len();
    let i18 = i17 + p9.len();
    assert(sp_expect(cs, i16, l9) == Some(i17));
    lemma_sp_opt_str_of(cs, i17, m.transaction_id);

    assert(sp_expect(cs, i18, r9) == Some(i18 + r9.len()));
    assert(i18 + r9.len() == cs.len());
}

/// A read payload tail was written exactly as read.
#[verifier::rlimit(100)]
proof fn lemma_sp_wire_tail_sound(
    cs: Seq<char>,
    i: int,
    id: Seq<char>,
    timestamp: Seq<char>,
    database: Seq<char>,
    table: Seq<char>,
)
    ensures
        sp_wire_tail(cs, i, id, timestamp, database, table) matches Some(m) ==> 0 <= i
            && event_wf(m) && m.id == id && m.timestamp == timestamp && m.database == database
            && m.table == table && cs.subrange(i, cs.len() as int) == wire_from_operation(m),
{
    let l5 = ",\"operation\":"@;
    if sp_expect(cs, i, l5) is Some { let i9 = sp_expect(cs, i, l5)->Some_0;
        lemma_sp_string_sound(cs, i9);
        if sp_string(cs, i9) is Some { let _p = sp_string(cs, i9)->Some_0;
            let ops = _p.0; let i10 = _p.1;
            if sp_op(ops) is Some { let op = sp_op(ops)->Some_0;
                let l6 = ",\"before\":"@;
                if sp_expect(cs, i10, l6) is Some { let i11 = sp_expect(cs, i10, l6)->Some_0;
                    lemma_sp_opt_map_sound(cs, i11);
                    if sp_opt_map(cs, i11) is Some { let _q = sp_opt_map(cs, i11)->Some_0;
                        let before = _q.0; let i12 = _q.1;
                        let l7 = ",\"after\":"@;
                        if sp_expect(cs, i12, l7) is Some { let i13 = sp_expect(cs, i12, l7)->Some_0;
                            lemma_sp_opt_map_sound(cs, i13);
                            if sp_opt_map(cs, i13) is Some { let _r = sp_opt_map(cs, i13)->Some_0;
                                let after = _r.0; let i14 = _r.1;
                                let l8 = ",\"primary_key\":"@;
                                if sp_expect(cs, i14, l8) is Some { let i15 = sp_expect(cs, i14, l8)->Some_0;
                                    lemma_sp_map_sound(cs, i15);
                                    if sp_map(cs, i15) is Some { let _s = sp_map(cs, i15)->Some_0;
                                        let pk = _s.0; let i16 = _s.1;
                                        let l9 = ",\"transaction_id\":"@;
                                        if sp_expect(cs, i16, l9) is Some { let i17 = sp_expect(cs, i16, l9)->Some_0;
                                            lemma_sp_opt_str_sound(cs, i17);
                                            if sp_opt_str(cs, i17) is Some { let _t = sp_opt_str(cs, i17)->Some_0;
                                                let txn = _t.0; let i18 = _t.1;
                                                if sp_expect(cs, i18, "}"@) is Some { let j = sp_expect(cs, i18, "}"@)->Some_0;
                                                    if j == cs.len() {
                                                        lemma_join(cs, i16, i17, i18, l9, opt_str_render(txn));
                                                        lemma_join(cs, i16, i18, j, l9 + opt_str_render(txn), "}"@);
                                                        lemma_join(cs, i14, i15, i16, l8, map_render(pk));
                                                        lemma_join(cs, i14, i16, j, l8 + map_render(pk), cs.subrange(i16, j));
                                                        lemma_join(cs, i12, i13, i14, l7, opt_map_render(after));
                                                        lemma_join(cs, i12, i14, j, l7 + opt_map_render(after), cs.subrange(i14, j));
                                                        lemma_join(cs, i10, i11, i12, l6, opt_map_render(before));
                                                        lemma_join(cs, i10, i12, j, l6 + opt_map_render(before), cs.subrange(i12, j));
                                                        assert(ops == spec_operation_str(op));
                                                        lemma_join(cs, i, i9, i10, l5, str_render(ops));
                                                        lemma_join(cs, i, i10, j, l5 + str_render(ops), cs.subrange(i10, j));
                                                    }
                                                }
                                            }
                                        }
                                    }
                                }
                            }
                        }
                    }
                }
            }
        }
    }
}

/// A read payload middle was written exactly as read.
#[verifier::rlimit(100)]
proof fn lemma_sp_wire_mid_sound(cs: Seq<char>, i: int, id: Seq<char>, timestamp: Seq<char>)
    ensures
        sp_wire_mid(cs, i, id, timestamp) matches Some(m) ==> 0 <= i && event_wf(m) && m.id == id
            && m.timestamp == timestamp && cs.subrange(i, cs.len() as int) == wire_from_database(
            m,
        ),
{
    let l3 = ",\"database\":"@;
    if sp_expect(cs, i, l3) is Some { let i5 = sp_expect(cs, i, l3)->Some_0;
        lemma_sp_string_sound(cs, i5);
        if sp_string(cs, i5) is Some { let _p = sp_string(cs, i5)->Some_0;
            let database = _p.0; let i6 = _p.1;
            let l4 = ",\"table\":"@;
            if sp_expect(cs, i6, l4) is Some { let i7 = sp_expect(cs, i6, l4)->Some_0;
                lemma_sp_string_sound(cs, i7);
                if sp_string(cs, i7) is Some { let _q = sp_string(cs, i7)->Some_0;
                    let table = _q.0; let i8 = _q.1;
                    lemma_sp_wire_tail_sound(cs, i8, id, timestamp, database, table);
                    if sp_wire_tail(cs, i8, id, timestamp, database, table) is Some {
                        let m = sp_wire_tail(cs, i8, id, timestamp, database, table)->Some_0;
                        let j = cs.len() as int;
                        lemma_join(cs, i6, i7, i8, l4, str_render(table));
                        lemma_join(cs, i6, i8, j, l4 + str_render(table), cs.subrange(i8, j));
                        lemma_join(cs, i, i5, i6, l3, str_render(database));
                        lemma_join(cs, i, i6, j, l3 + str_render(database), cs.subrange(i6, j));
                    }
                }
            }
        }
    }
}

/// The parser accepts only canonical payloads: whatever it reads as an
/// event is well-formed, and writing that event back gives exactly the
/// input.  Together with `lemma_wire_round_trip` this pins the encoding
/// in both directions.
#[verifier::rlimit(100)]
pub proof fn lemma_wire_parse_sound(cs: Seq<char>)
    ensures
        sp_wire(cs) matches Some(m) ==> event_wf(m) && cs == wire_of(m),
{
    let l1 = "{\"id\":"@;
    if sp_expect(cs, 0, l1) is Some { let i1 = sp_expect(cs, 0, l1)->Some_0;
        lemma_sp_string_sound(cs, i1);
        if sp_string(cs, i1) is Some { let _p = sp_string(cs, i1)->Some_0;
            let id = _p.0; let i2 = _p.1;
            let l2 = ",\"timestamp\":"@;
            if sp_expect(cs, i2, l2) is Some { let i3 = sp_expect(cs, i2, l2)->Some_0;
                lemma_sp_string_sound(cs, i3);
                if sp_string(cs, i3) is Some { let _q = sp_string(cs, i3)->Some_0;
                    let timestamp = _q.0; let i4 = _q.1;
                    lemma_sp_wire_mid_sound(cs, i4, id, timestamp);
                    if sp_wire_mid(cs, i4, id, timestamp) is Some {
                        let m = sp_wire_mid(cs, i4, id, timestamp)->Some_0;
                        let j = cs.len() as int;
                        lemma_join(cs, i2, i3, i4, l2, str_render(timestamp));
                        lemma_join(cs, i2, i4, j, l2 + str_render(timestamp), cs.subrange(i4, j));
                        lemma_join(cs, 0, i1, i2, l1, str_render(id));
                        lemma_join(cs, 0, i2, j, l1 + str_render(id), cs.subrange(i2, j));
                        assert(cs =~= cs.subrange(0, j));
                        assert(cs == wire_of(m));
                    }
                }
            }
        }
    }
}

/// The round trip: reading the written payload of any well-formed event
/// model gives back exactly that model — same operation, before and
/// after maps, primary key, identifier, timestamp, names and
/// transaction correlator.  Together with the contracts of `to_wire`
/// and `parse_wire` this says that parsing a serialized event yields a
/// structurally identical event.
#[verifier::rlimit(100)]
pub proof fn lemma_wire_round_trip(m: EventModel)
    requires
        event_wf(m),
    ensures
        sp_wire(wire_of(m)) == Some(m),
{
    let cs = wire_of(m);
    assert(cs.subrange(0, cs.len() as int) =~= cs);

    let l1 = "{\"id\":"@;
    let p1 = str_render(m.id);
    let r1 = wire_from_timestamp(m);
    lemma_assoc(l1, p1, r1);
    lemma_peel(cs, 0, l1, p1 + r1);
    lemma_peel(cs, l1.len() as int, p1, r1);
    let i1 = l1.len() as int;
    let i2 = i1 + p1.len();
    assert(sp_expect(cs, 0, l1) == Some(i1));
    lemma_sp_string_of(cs, i1, m.id);

    let l2 = ",\"timestamp\":"@;
    let p2 = str_render(m.timestamp);
    let r2 = wire_from_database(m);
    lemma_assoc(l2, p2, r2);
    lemma_peel(cs, i2, l2, p2 + r2);
    lemma_peel(cs, i2 + l2.len(), p2, r2);
    let i3 = i2 + l2.len();
    let i4 = i3 + p2.len();
    assert(sp_expect(cs, i2, l2) == Some(i3));
    lemma_sp_string_of(cs, i3, m.timestamp);

    assert(i4 + r2.len() == cs.len());
    assert(cs.subrange(i4, cs.len() as int) == r2);
    lemma_sp_wire_mid_of(cs, i4, m);
    assert(sp_wire(cs) == Some(m));
}

/// Reading the written fields from `database` on gives them back.
#[verifier::rlimit(100)]
proof fn lemma_sp_wire_mid_of(cs: Seq<char>, i4: int, m: EventModel)
    requires
        event_wf(m),
        0 <= i4 <= cs.len(),
        cs.subrange(i4, cs.len() as int) == wire_from_database(m),
    ensures
        sp_wire_mid(cs, i4, m.id, m.timestamp) == Some(m),
{
    let l3 = ",\"database\":"@;
    let p3 = str_render(m.database);
    let r3 = wire_from_table(m);
    lemma_assoc(l3, p3, r3);
    assert(cs.subrange(i4, cs.len() as int).len() == cs.len() - i4);
    assert(wire_from_database(m) == (l3 + p3) + r3);
    assert(((l3 + p3) + r3).len() == l3.len() + p3.len() + r3.len());
    assert(cs.len() - i4 == l3.len() + p3.len() + r3.len());
    assert(cs.subrange(i4, i4 + l3.len() + (p3 + r3).len()) == l3 + (p3 + r3));
    lemma_peel(cs, i4, l3, p3 + r3);
    lemma_peel(cs, i4 + l3.len(), p3, r3);
    let i5 = i4 + l3.len();
    let i6 = i5 + p3.len();
    assert(sp_expect(cs, i4, l3) == Some(i5));
    lemma_sp_string_of(cs, i5, m.database);

    let l4 = ",\"table\":"@;
    let p4 = str_render(m.table);
    let r4 = wire_from_operation(m);
    lemma_assoc(l4, p4, r4);
    lemma_peel(cs, i6, l4, p4 + r4);
    lemma_peel(cs, i6 + l4.len(), p4, r4);
    let i7 = i6 + l4.len();
    let i8 = i7 + p4.len();
    assert(sp_expect(cs, i6, l4) == Some(i7));
    lemma_sp_string_of(cs, i7, m.table);

    assert(i8 + r4.len() == cs.len());
    assert(cs.subrange(i8, cs.len() as int) == r4);
    lemma_sp_wire_tail_of(cs, i8, m);
}

} // verus!
