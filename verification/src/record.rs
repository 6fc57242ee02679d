//! One record of the registry and the line that stores it.

use vstd::prelude::*;
use crate::decimal::{
    decimal, format_i32, lemma_decimal_chars, lemma_parse_decimal, parse_i32_chars,
    parse_i32_spec, is_digit,
};
use crate::fields::{
    free_of, lemma_split_fields, lemma_split_join, lemma_split_keeps_free, lemma_split_one, split,
    split_chars, views,
};
use crate::text::{from_chars, to_chars};

verus! {

/// Why an operation on the registry was given up.
#[derive(Debug, Clone, Copy, PartialEq, Eq, Structural)]
pub enum RegistryError {
    /// The backing file is there but could not be read.
    StoreUnreadable,
    /// A line of the backing file is not a record.
    MalformedRecord,
    /// The bridging process could not be started.
    LaunchFailed,
}

/// One link: the process that bridges it, the paths of its two ends and
/// the line rate it was asked for.
#[derive(Debug, PartialEq, Eq)]
pub struct State {
    pub pid: i32,
    pub master: String,
    pub slave: String,
    pub baud_rate: i32,
}

/// What a `State` holds, as mathematical values.
pub struct Record {
    pub pid: int,
    pub master: Seq<char>,
    pub slave: Seq<char>,
    pub baud_rate: int,
}

impl View for State {
    type V = Record;

    open spec fn view(&self) -> Record {
        Record {
            pid: self.pid as int,
            master: self.master@,
            slave: self.slave@,
            baud_rate: self.baud_rate as int,
        }
    }
}

impl Clone for State {
    fn clone(&self) -> (r: Self)
        ensures
            r@ == self@,
    {
        State {
            pid: self.pid,
            master: self.master.clone(),
            slave: self.slave.clone(),
            baud_rate: self.baud_rate,
        }
    }
}

/// What each of the instances of `v` holds.
pub open spec fn records(v: Seq<State>) -> Seq<Record> {
    Seq::new(v.len(), |i: int| v[i]@)
}

/// Whether a line can hold `r` and give it back: both numbers fit in 32
/// bits, and neither path holds a space or a line break.
pub open spec fn storable(r: Record) -> bool {
    &&& i32::MIN <= r.pid <= i32::MAX
    &&& i32::MIN <= r.baud_rate <= i32::MAX
    &&& free_of(r.master, ' ')
    &&& free_of(r.master, '\n')
    &&& free_of(r.slave, ' ')
    &&& free_of(r.slave, '\n')
}

/// The line that stores `r`: process id, the two paths and the line rate,
/// with one space between them and no line break at the end.
pub open spec fn line_of(r: Record) -> Seq<char> {
    decimal(r.pid) + seq![' '] + r.master + seq![' '] + r.slave + seq![' '] + decimal(r.baud_rate)
}

/// The record that `line` stores, if it stores one: exactly four fields
/// between single spaces, the first and the last of them 32-bit integers.
pub open spec fn parse_line(line: Seq<char>) -> Option<Record> {
    let f = split(line, ' ');
    if f.len() == 4 {
        match (parse_i32_spec(f[0]), parse_i32_spec(f[3])) {
            (Some(pid), Some(baud_rate)) => Some(
                Record { pid: pid as int, master: f[1], slave: f[2], baud_rate: baud_rate as int },
            ),
            _ => None,
        }
    } else {
        None
    }
}

/// A written number holds neither a space nor a line break.
pub proof fn lemma_decimal_free(n: int)
    ensures
        free_of(decimal(n), ' '),
        free_of(decimal(n), '\n'),
{
    lemma_decimal_chars(n);
    assert forall|i: int| 0 <= i < decimal(n).len() implies #[trigger] decimal(n)[i] != ' ' by {
        assert(is_digit(decimal(n)[i]) || decimal(n)[i] == '-');
    }
    assert forall|i: int| 0 <= i < decimal(n).len() implies #[trigger] decimal(n)[i] != '\n' by {
        assert(is_digit(decimal(n)[i]) || decimal(n)[i] == '-');
    }
}

/// The line of a storable record is not empty, holds no line break, and
/// reads back as that record.
pub proof fn lemma_line_round_trip(r: Record)
    requires
        storable(r),
    ensures
        parse_line(line_of(r)) == Some(r),
        free_of(line_of(r), '\n'),
        line_of(r).len() > 0,
{
    let p = decimal(r.pid);
    let b = decimal(r.baud_rate);
    lemma_decimal_free(r.pid);
    lemma_decimal_free(r.baud_rate);
    lemma_decimal_chars(r.pid);
    lemma_parse_decimal(r.pid);
    lemma_parse_decimal(r.baud_rate);
    let a1 = p + seq![' '] + r.master;
    let a2 = a1 + seq![' '] + r.slave;
    lemma_split_join(a2, b, ' ');
    lemma_split_join(a1, r.slave, ' ');
    lemma_split_join(p, r.master, ' ');
    lemma_split_one(p, ' ');
    lemma_split_one(r.master, ' ');
    lemma_split_one(r.slave, ' ');
    lemma_split_one(b, ' ');
    assert(split(line_of(r), ' ') == seq![p, r.master, r.slave, b]);
}

/// A record read from a line without line breaks is storable.
pub proof fn lemma_parsed_is_storable(line: Seq<char>)
    requires
        free_of(line, '\n'),
        parse_line(line) is Some,
    ensures
        storable(parse_line(line)->0),
{
    lemma_split_fields(line, ' ');
    lemma_split_keeps_free(line, ' ', '\n');
    let f = split(line, ' ');
    assert(free_of(f[1], ' '));
    assert(free_of(f[2], ' '));
    assert(free_of(f[1], '\n'));
    assert(free_of(f[2], '\n'));
}

/// Reads the record that the characters of one line store.
pub fn parse_line_chars(line: &Vec<char>) -> (r: Result<State, RegistryError>)
    ensures
        match parse_line(line@) {
            Some(rec) => r is Ok && r->Ok_0@ == rec,
            None => r == Err::<State, RegistryError>(RegistryError::MalformedRecord),
        },
{
    let f = split_chars(line, ' ');
    assert(views(f@).len() == f@.len());
    if f.len() != 4 {
        return Err(RegistryError::MalformedRecord);
    }
    assert(views(f@)[0] == f@[0]@);
    assert(views(f@)[1] == f@[1]@);
    assert(views(f@)[2] == f@[2]@);
    assert(views(f@)[3] == f@[3]@);
    let pid = parse_i32_chars(&f[0]);
    let baud_rate = parse_i32_chars(&f[3]);
    match (pid, baud_rate) {
        (Some(pid), Some(baud_rate)) => Ok(
            State { pid, master: from_chars(&f[1]), slave: from_chars(&f[2]), baud_rate },
        ),
        _ => Err(RegistryError::MalformedRecord),
    }
}

/// Reads the record that one line of the registry stores. The line must
/// hold exactly four fields between single spaces, the first and the last
/// of them 32-bit integers; any other line is malformed.
pub fn stateline_to_instance(stateline: String) -> (r: Result<State, RegistryError>)
    ensures
        match parse_line(stateline@) {
            Some(rec) => r is Ok && r->Ok_0@ == rec,
            None => r == Err::<State, RegistryError>(RegistryError::MalformedRecord),
        },
{
    let chars = to_chars(stateline.as_str());
    parse_line_chars(&chars)
}

/// Writes the line that stores `instance`, without a line break.
pub fn instance_to_stateline(instance: &State) -> (line: String)
    ensures
        line@ == line_of(instance@),
{
    let mut line = format_i32(instance.pid);
    line.push(' ');
    line.append(instance.master.as_str());
    line.push(' ');
    line.append(instance.slave.as_str());
    line.push(' ');
    let baud_rate = format_i32(instance.baud_rate);
    line.append(baud_rate.as_str());
    assert(line@ == line_of(instance@));
    line
}

} // verus!
