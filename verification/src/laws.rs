//! What holds of the registry whatever it stores.

use vstd::prelude::*;
use crate::fields::{free_of, lemma_split_fields, lemma_split_join, lemma_split_one, split};
use crate::record::{
    lemma_line_round_trip, lemma_parsed_is_storable, line_of, parse_line, storable, Record,
};
use crate::manager::{
    begin_spec, effect, step_spec, ActionView, CommandView, NextView, OutcomeView, SessionView,
};
use crate::store::{
    append_spec, filled, lines_of, load_spec, records_of, terminated, text_of, without,
};

verus! {

/// Whether each of `rs` is storable.
pub open spec fn all_storable(rs: Seq<Record>) -> bool {
    forall|i: int| 0 <= i < rs.len() ==> storable(#[trigger] rs[i])
}

/// Whether `rs` holds a record of process `pid`.
pub open spec fn has_pid(rs: Seq<Record>, pid: int) -> bool {
    exists|i: int| 0 <= i < rs.len() && (#[trigger] rs[i]).pid == pid
}

/// Empty text has no lines that are not empty.
pub proof fn lemma_lines_of_empty()
    ensures
        lines_of(Seq::empty()) == Seq::<Seq<char>>::empty(),
{
    reveal_with_fuel(Seq::filter, 2);
    let e = Seq::<char>::empty();
    lemma_split_one(e, '\n');
    assert(seq![e].drop_last() == Seq::<Seq<char>>::empty());
}

/// A line appended to text that ends in a line break, or to no text at
/// all, becomes the last line, and the lines before it stay.
pub proof fn lemma_lines_push(text: Seq<char>, line: Seq<char>)
    requires
        terminated(text),
        free_of(line, '\n'),
        line.len() > 0,
    ensures
        lines_of(text + line + seq!['\n']) == lines_of(text).push(line),
{
    let e = Seq::<char>::empty();
    let tail = line + seq!['\n'];
    lemma_lines_of_empty();
    lemma_split_one(e, '\n');
    lemma_split_one(line, '\n');
    // the appended part alone
    assert(line + seq!['\n'] + e == tail);
    lemma_split_join(line, e, '\n');
    assert(split(tail, '\n') == seq![line, e]);
    assert(seq![line, e].filter(filled()) == seq![line]) by {
        reveal_with_fuel(Seq::filter, 3);
        assert(seq![line, e].drop_last() == seq![line]);
        assert(seq![line].drop_last() == Seq::<Seq<char>>::empty());
    }
    if text.len() == 0 {
        assert(text + line + seq!['\n'] == tail);
        assert(text == e);
        assert(lines_of(text).push(line) == seq![line]);
    } else {
        let t = text.drop_last();
        assert(text == t + seq!['\n'] + e);
        lemma_split_join(t, e, '\n');
        assert(text + line + seq!['\n'] == t + seq!['\n'] + tail);
        lemma_split_join(t, tail, '\n');
        Seq::filter_distributes_over_add(split(t, '\n'), seq![e], filled());
        Seq::filter_distributes_over_add(split(t, '\n'), seq![line, e], filled());
        assert(seq![e].filter(filled()) == Seq::<Seq<char>>::empty());
        assert(split(t, '\n').filter(filled()) + Seq::<Seq<char>>::empty() == split(t, '\n').filter(
            filled(),
        ));
        assert(split(t, '\n').filter(filled()) + seq![line] == split(t, '\n').filter(
            filled(),
        ).push(line));
    }
}

/// An empty backing file stores no record.
pub proof fn load_of_nothing()
    ensures
        load_spec(Seq::empty()) == Some(Seq::<Record>::empty()),
{
    lemma_lines_of_empty();
    assert(records_of(Seq::<Seq<char>>::empty()) == Seq::<Record>::empty());
}

/// Appending a storable record to a registry that can be read, and that is
/// empty or ends in a line break, gives a registry that reads as the
/// records it had, in their order, followed by exactly that record.
pub proof fn append_then_load(text: Seq<char>, r: Record)
    requires
        storable(r),
        terminated(text),
        load_spec(text) is Some,
    ensures
        load_spec(append_spec(text, r)) == Some(load_spec(text)->0.push(r)),
        load_spec(append_spec(text, r))->0.contains(r),
        terminated(append_spec(text, r)),
{
    lemma_line_round_trip(r);
    lemma_lines_push(text, line_of(r));
    let before = lines_of(text);
    let after = lines_of(append_spec(text, r));
    assert(after == before.push(line_of(r)));
    assert forall|i: int| 0 <= i < after.len() implies parse_line(#[trigger] after[i]) is Some by {
        if i < before.len() {
            assert(after[i] == before[i]);
        }
    }
    let rs = load_spec(text)->0;
    assert(records_of(after) == rs.push(r)) by {
        assert forall|i: int| 0 <= i < after.len() implies records_of(after)[i] == rs.push(r)[i] by {
            if i < before.len() {
                assert(after[i] == before[i]);
                assert(records_of(before)[i] == parse_line(before[i])->0);
            }
        }
    }
    assert(rs.push(r)[rs.len() as int] == r);
}

/// Every record read from a registry is storable.
pub proof fn loaded_is_storable(text: Seq<char>)
    requires
        load_spec(text) is Some,
    ensures
        all_storable(load_spec(text)->0),
{
    let all = split(text, '\n');
    let lines = lines_of(text);
    let rs = load_spec(text)->0;
    lemma_split_fields(text, '\n');
    assert forall|i: int| 0 <= i < rs.len() implies storable(#[trigger] rs[i]) by {
        assert(lines.contains(lines[i]));
        all.lemma_filter_contains_rev(filled(), lines[i]);
        let j = choose|j: int| 0 <= j < all.len() && all[j] == lines[i];
        assert(free_of(all[j], '\n'));
        assert(parse_line(lines[i]) is Some);
        lemma_parsed_is_storable(lines[i]);
    }
}

/// The text written for storable records is empty or ends in a line break,
/// and reads back as those records in their order.
pub proof fn write_then_load(rs: Seq<Record>)
    requires
        all_storable(rs),
    ensures
        load_spec(text_of(rs)) == Some(rs),
        terminated(text_of(rs)),
    decreases rs.len(),
{
    if rs.len() == 0 {
        load_of_nothing();
    } else {
        let front = rs.drop_last();
        write_then_load(front);
        append_then_load(text_of(front), rs.last());
        assert(front.push(rs.last()) == rs);
    }
}

/// What is left when the records of one process are taken out: records of
/// the registry, none of that process.
pub proof fn lemma_without(rs: Seq<Record>, pid: int)
    ensures
        !has_pid(without(rs, pid), pid),
        all_storable(rs) ==> all_storable(without(rs, pid)),
        !has_pid(rs, pid) ==> without(rs, pid) == rs,
    decreases rs.len(),
{
    reveal(Seq::filter);
    let kept = without(rs, pid);
    if rs.len() > 0 {
        let front = rs.drop_last();
        lemma_without(front, pid);
        let front_kept = without(front, pid);
        if rs.last().pid != pid {
            assert(kept == front_kept.push(rs.last()));
            assert forall|i: int| 0 <= i < kept.len() implies (#[trigger] kept[i]).pid != pid by {
                if i < front_kept.len() {
                    assert(kept[i] == front_kept[i]);
                }
            }
        } else {
            assert(kept == front_kept);
        }
        if all_storable(rs) {
            assert(all_storable(front)) by {
                assert forall|i: int| 0 <= i < front.len() implies storable(#[trigger] front[i]) by {
                    assert(front[i] == rs[i]);
                }
            }
            assert forall|i: int| 0 <= i < kept.len() implies storable(#[trigger] kept[i]) by {
                if i < front_kept.len() {
                    assert(kept[i] == front_kept[i]);
                } else {
                    assert(kept[i] == rs.last());
                    assert(storable(rs[rs.len() - 1]));
                }
            }
        }
        if !has_pid(rs, pid) {
            assert(rs[rs.len() - 1].pid != pid);
            assert(!has_pid(front, pid)) by {
                if has_pid(front, pid) {
                    let i = choose|i: int| 0 <= i < front.len() && (#[trigger] front[i]).pid == pid;
                    assert(rs[i].pid == pid);
                }
            }
            assert(front.push(rs.last()) == rs);
        }
    }
}

/// Removing a process from a registry that can be read gives a registry
/// that reads as the records of the other processes, in their order, and
/// holds no record of that process.
pub proof fn remove_then_load(text: Seq<char>, pid: int)
    requires
        load_spec(text) is Some,
    ensures
        load_spec(text_of(without(load_spec(text)->0, pid))) == Some(
            without(load_spec(text)->0, pid),
        ),
        !has_pid(without(load_spec(text)->0, pid), pid),
        terminated(text_of(without(load_spec(text)->0, pid))),
{
    let rs = load_spec(text)->0;
    loaded_is_storable(text);
    lemma_without(rs, pid);
    write_then_load(without(rs, pid));
}

/// Removing a process of which the registry holds no record leaves the
/// records it stores, and their order, as they were.
pub proof fn remove_absent(text: Seq<char>, pid: int)
    requires
        load_spec(text) is Some,
        !has_pid(load_spec(text)->0, pid),
    ensures
        load_spec(text_of(without(load_spec(text)->0, pid))) == load_spec(text),
{
    let rs = load_spec(text)->0;
    lemma_without(rs, pid);
    remove_then_load(text, pid);
}

/// Two storable records of different processes, appended one after the
/// other, are both read back: the registry then ends in the first and the
/// second, in that order, after the records it had.
pub proof fn two_appends(text: Seq<char>, first: Record, second: Record)
    requires
        storable(first),
        storable(second),
        first.pid != second.pid,
        terminated(text),
        load_spec(text) is Some,
    ensures
        load_spec(append_spec(append_spec(text, first), second)) == Some(
            load_spec(text)->0.push(first).push(second),
        ),
        load_spec(append_spec(append_spec(text, first), second))->0.contains(first),
        load_spec(append_spec(append_spec(text, first), second))->0.contains(second),
{
    append_then_load(text, first);
    append_then_load(append_spec(text, first), second);
    let rs = load_spec(text)->0;
    let all = rs.push(first).push(second);
    assert(all[rs.len() as int] == first);
    assert(all[rs.len() as int + 1] == second);
}

/// A record appended to a registry that held none of its process, and
/// then removed by its process id, leaves the records that were there
/// before, in their order.
pub proof fn append_then_remove(text: Seq<char>, r: Record)
    requires
        storable(r),
        terminated(text),
        load_spec(text) is Some,
        !has_pid(load_spec(text)->0, r.pid),
    ensures
        load_spec(append_spec(text, r)) is Some,
        load_spec(text_of(without(load_spec(append_spec(text, r))->0, r.pid))) == load_spec(text),
{
    let rs = load_spec(text)->0;
    append_then_load(text, r);
    lemma_without(rs, r.pid);
    assert(without(rs.push(r), r.pid) == rs) by {
        reveal(Seq::filter);
        assert(rs.push(r).drop_last() == rs);
    }
    remove_then_load(append_spec(text, r), r.pid);
}

/// Listing asks for the backing file to be read and for nothing else, and
/// reading leaves the file as it was: listing again, with nothing done in
/// between, shows the same records in the same order.
pub proof fn listing_repeats(text: Seq<char>)
    ensures
        begin_spec(CommandView::Show) == (SessionView::Listing, ActionView::Read),
        effect(ActionView::Read, text) == text,
        !(step_spec(SessionView::Listing, OutcomeView::Contents(text)) is Do),
        step_spec(SessionView::Listing, OutcomeView::Contents(effect(ActionView::Read, text)))
            == step_spec(SessionView::Listing, OutcomeView::Contents(text)),
{
}

/// A process is signalled only once the registry was rewritten without
/// it: the request to signal answers nothing but the success of that
/// rewrite, and names the process that was taken out.
pub proof fn signal_follows_rewrite(session: SessionView, outcome: OutcomeView)
    requires
        step_spec(session, outcome) matches NextView::Do(_, ActionView::Signal(_)),
    ensures
        outcome == OutcomeView::Done,
        session is Rewriting,
        step_spec(session, outcome) == NextView::Do(
            SessionView::Signalling { pid: session->Rewriting_pid },
            ActionView::Signal(session->Rewriting_pid),
        ),
{
}

/// The rewrite asked for when a link is torn down leaves a registry that
/// reads as the records of the other processes, in their order.
pub proof fn rewrite_takes_out(pid: int, text: Seq<char>)
    requires
        load_spec(text) is Some,
    ensures
        step_spec(SessionView::Removing { pid }, OutcomeView::Contents(text)) matches NextView::Do(
            _,
            action,
        ) && action is Rewrite && load_spec(effect(action, text)) == Some(
            without(load_spec(text)->0, pid),
        ) && !has_pid(load_spec(effect(action, text))->0, pid),
{
    remove_then_load(text, pid);
}

/// The append asked for when a link was started leaves a registry that
/// reads as the records it had, followed by that of the new link, if the
/// registry could be read, was empty or ended in a line break, and neither
/// path holds a space or a line break.
pub proof fn append_records(
    master: Seq<char>,
    slave: Seq<char>,
    baud_rate: int,
    pid: int,
    text: Seq<char>,
)
    requires
        storable(Record { pid, master, slave, baud_rate }),
        terminated(text),
        load_spec(text) is Some,
    ensures
        step_spec(
            SessionView::Launching { master, slave, baud_rate },
            OutcomeView::Started(pid),
        ) matches NextView::Do(_, action) && action is Append && load_spec(effect(action, text))
            == Some(load_spec(text)->0.push(Record { pid, master, slave, baud_rate })),
{
    let r = Record { pid, master, slave, baud_rate };
    append_then_load(text, r);
    assert(text + (line_of(r) + seq!['\n']) == append_spec(text, r));
}

} // verus!
