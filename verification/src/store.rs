//! The registry as text: one record per line, oldest first.
//!
//! The functions here work on the contents of the backing file, not on the
//! file. Appending is not guarded against a second writer: whoever reads,
//! changes and writes the file while another does the same may lose the
//! other's change.

use vstd::prelude::*;
use crate::fields::{split, split_chars, views};
use crate::record::{
    instance_to_stateline, line_of, parse_line, parse_line_chars, records, Record, RegistryError,
    State,
};
use crate::text::to_chars;

verus! {

/// The test that a line is not empty.
pub open spec fn filled() -> spec_fn(Seq<char>) -> bool {
    |line: Seq<char>| line.len() > 0
}

/// The test that a record belongs to another process than `pid`.
pub open spec fn other_than(pid: int) -> spec_fn(Record) -> bool {
    |r: Record| r.pid != pid
}

/// The lines of `text` that are not empty, in order.
pub open spec fn lines_of(text: Seq<char>) -> Seq<Seq<char>> {
    split(text, '\n').filter(filled())
}

/// Whether each of `lines` stores a record.
pub open spec fn all_parse(lines: Seq<Seq<char>>) -> bool {
    forall|i: int| 0 <= i < lines.len() ==> parse_line(#[trigger] lines[i]) is Some
}

/// The records that `lines` store, in order.
pub open spec fn records_of(lines: Seq<Seq<char>>) -> Seq<Record> {
    Seq::new(lines.len(), |i: int| parse_line(lines[i])->0)
}

/// The records that `text` stores, in file order; nothing if one of its
/// non-empty lines is no record.
pub open spec fn load_spec(text: Seq<char>) -> Option<Seq<Record>> {
    if all_parse(lines_of(text)) {
        Some(records_of(lines_of(text)))
    } else {
        None
    }
}

/// The text that stores `rs`: the line of each, closed by a line break.
pub open spec fn text_of(rs: Seq<Record>) -> Seq<char>
    decreases rs.len(),
{
    if rs.len() == 0 {
        Seq::empty()
    } else {
        text_of(rs.drop_last()) + line_of(rs.last()) + seq!['\n']
    }
}

/// `text` with the line of `r` appended.
pub open spec fn append_spec(text: Seq<char>, r: Record) -> Seq<char> {
    text + line_of(r) + seq!['\n']
}

/// `rs` without the records of process `pid`.
pub open spec fn without(rs: Seq<Record>, pid: int) -> Seq<Record> {
    rs.filter(other_than(pid))
}

/// Whether `text` is empty or ends in a line break, so that what is
/// appended starts a line of its own.
pub open spec fn terminated(text: Seq<char>) -> bool {
    text.len() == 0 || text.last() == '\n'
}

/// Reads the registry from the contents of its backing file: one record per
/// non-empty line, in file order. One malformed line fails the whole read.
pub fn get_state(contents: &str) -> (r: Result<Vec<State>, RegistryError>)
    ensures
        match load_spec(contents@) {
            Some(rs) => r is Ok && records(r->Ok_0@) == rs,
            None => r == Err::<Vec<State>, RegistryError>(RegistryError::MalformedRecord),
        },
{
    let chars = to_chars(contents);
    let lines = split_chars(&chars, '\n');
    let ghost all = split(contents@, '\n');
    let mut out: Vec<State> = Vec::new();
    let mut i: usize = 0;
    assert(views(lines@).len() == lines@.len());
    proof {
        reveal(Seq::filter);
        assert(all.take(0).filter(filled()) == Seq::<Seq<char>>::empty());
    }
    while i < lines.len()
        invariant
            i <= lines.len(),
            all == split(contents@, '\n'),
            views(lines@) == all,
            all.len() == lines.len(),
            all_parse(all.take(i as int).filter(filled())),
            records(out@) == records_of(all.take(i as int).filter(filled())),
        decreases lines.len() - i,
    {
        let ghost before = all.take(i as int).filter(filled());
        let ghost after = all.take(i + 1).filter(filled());
        proof {
            reveal(Seq::filter);
            assert(all.take(i + 1).drop_last() == all.take(i as int));
            assert(all.take(i + 1).last() == all[i as int]);
            assert(views(lines@)[i as int] == lines@[i as int]@);
            assert(after == if all[i as int].len() > 0 {
                before.push(all[i as int])
            } else {
                before
            });
        }
        if lines[i].len() > 0 {
            match parse_line_chars(&lines[i]) {
                Ok(instance) => {
                    let ghost had = out@;
                    out.push(instance);
                    assert(records(out@) == records_of(after)) by {
                        assert(out@ == had.push(instance));
                        assert(records(had) == records_of(before));
                        assert(after == before.push(all[i as int]));
                        assert(records(had).len() == had.len());
                        assert(records_of(before).len() == before.len());
                        assert(records_of(after).len() == after.len());
                        assert forall|k: int| 0 <= k < records(out@).len() implies records(out@)[k]
                            == records_of(after)[k] by {
                            if k < had.len() {
                                assert(records(out@)[k] == records(had)[k]);
                                assert(records_of(after)[k] == records_of(before)[k]);
                            }
                        }
                    }
                },
                Err(e) => {
                    proof {
                        all.lemma_filter_contains(filled(), i as int);
                        let found = lines_of(contents@);
                        let j = choose|j: int| 0 <= j < found.len() && found[j] == all[i as int];
                        assert(parse_line(found[j]) is None);
                    }
                    return Err(e);
                },
            }
        }
        i += 1;
    }
    assert(all.take(i as int) == all);
    Ok(out)
}

/// Writes the contents of the backing file that stores `instances`.
pub fn write_state(instances: &Vec<State>) -> (text: String)
    ensures
        text@ == text_of(records(instances@)),
{
    let mut text = String::new();
    let ghost rs = records(instances@);
    let mut i: usize = 0;
    while i < instances.len()
        invariant
            i <= instances.len(),
            rs == records(instances@),
            text@ == text_of(rs.take(i as int)),
        decreases instances.len() - i,
    {
        let line = instance_to_stateline(&instances[i]);
        text.append(line.as_str());
        text.push('\n');
        proof {
            assert(rs.take(i + 1).drop_last() == rs.take(i as int));
            assert(rs.take(i + 1).last() == instances@[i as int]@);
        }
        i += 1;
    }
    assert(rs.take(i as int) == rs);
    text
}

/// The contents of the backing file after the line of `instance` was
/// appended to `contents`.
pub fn append_instance(contents: &str, instance: &State) -> (text: String)
    ensures
        text@ == append_spec(contents@, instance@),
{
    let mut text = String::from_str(contents);
    let line = instance_to_stateline(instance);
    text.append(line.as_str());
    text.push('\n');
    text
}

/// The instances of other processes than `pid`, in their order. Every
/// record of `pid` is left out, should there be more than one.
pub fn remove_by_id(instances: &Vec<State>, pid: i32) -> (kept: Vec<State>)
    ensures
        records(kept@) == without(records(instances@), pid as int),
{
    let mut kept: Vec<State> = Vec::new();
    let ghost rs = records(instances@);
    let mut i: usize = 0;
    proof {
        reveal(Seq::filter);
        assert(rs.take(0).filter(other_than(pid as int)) == Seq::<Record>::empty());
        assert(records(kept@) == Seq::<Record>::empty());
    }
    while i < instances.len()
        invariant
            i <= instances.len(),
            rs == records(instances@),
            records(kept@) == rs.take(i as int).filter(other_than(pid as int)),
        decreases instances.len() - i,
    {
        proof {
            reveal(Seq::filter);
            assert(rs.take(i + 1).drop_last() == rs.take(i as int));
            assert(rs.take(i + 1).last() == instances@[i as int]@);
        }
        if instances[i].pid != pid {
            let ghost before = records(kept@);
            kept.push(instances[i].clone());
            assert(records(kept@) == before.push(instances@[i as int]@));
        }
        i += 1;
    }
    assert(rs.take(i as int) == rs);
    kept
}

/// The contents of the backing file after every record of process `pid`
/// was taken out of `contents`: the other records, written anew in their
/// order. Fails, and rewrites nothing, if `contents` cannot be read as a
/// registry.
pub fn remove_instance_from_file(contents: &str, pid: i32) -> (r: Result<String, RegistryError>)
    ensures
        match load_spec(contents@) {
            Some(rs) => r is Ok && r->Ok_0@ == text_of(without(rs, pid as int)),
            None => r == Err::<String, RegistryError>(RegistryError::MalformedRecord),
        },
{
    match get_state(contents) {
        Ok(instances) => {
            let kept = remove_by_id(&instances, pid);
            Ok(write_state(&kept))
        },
        Err(e) => Err(e),
    }
}

} // verus!
