//! What is shown to the user, and what is handed to the bridging program.

use vstd::prelude::*;
use crate::decimal::{decimal, format_i32};
use crate::record::{instance_to_stateline, line_of, records, Record, State};
use crate::text::strings;

verus! {

/// Where the registry is kept.
pub const STATEFILE: &'static str = "/tmp/virtualserial";

/// Where the bridging program writes its own diagnostics.
pub const SOCATFILE: &'static str = "/tmp/virtualserial_socat";

/// How a record is written for a developer.
pub open spec fn describe_spec(r: Record) -> Seq<char> {
    "State("@ + decimal(r.pid) + ", "@ + r.master + ", "@ + r.slave + ", "@ + decimal(r.baud_rate)
        + ")"@
}

/// The line that shows one record.
pub open spec fn entry(r: Record) -> Seq<char> {
    "["@ + decimal(r.pid) + "], "@ + r.master + " -> "@ + r.slave + " at baud "@ + decimal(
        r.baud_rate,
    )
}

/// The lines that show `rs`, one per record, in their order.
pub open spec fn entries(rs: Seq<Record>) -> Seq<Seq<char>> {
    Seq::new(rs.len(), |i: int| entry(rs[i]))
}

/// What is shown of a registry: a heading, then one line per record in
/// their order, or a hint where there is none.
pub open spec fn listing(rs: Seq<Record>) -> Seq<Seq<char>> {
    if rs.len() == 0 {
        seq!["Current instances:"@, "No instances yet. See `virtualserial help create`."@]
    } else {
        seq!["Current instances:"@] + entries(rs)
    }
}

/// How one end of a link is described to the bridging program: a
/// pseudo-terminal linked at `path`, raw and without echo, at the given
/// rate in both directions, owned by the given user and group.
pub open spec fn endpoint(
    path: Seq<char>,
    baud_rate: int,
    user_id: int,
    group_id: int,
) -> Seq<char> {
    "pty,link="@ + path + ",raw,echo=0,ispeed="@ + decimal(baud_rate) + ",ospeed="@ + decimal(
        baud_rate,
    ) + ",user="@ + decimal(user_id) + ",group="@ + decimal(group_id)
}

/// The arguments with which the bridging program is started: four times
/// the flag for more diagnostics, the file that takes them, then the two
/// ends.
pub open spec fn arguments(
    master: Seq<char>,
    slave: Seq<char>,
    baud_rate: int,
    user_id: int,
    group_id: int,
) -> Seq<Seq<char>> {
    seq![
        "-d"@,
        "-d"@,
        "-d"@,
        "-d"@,
        "-lf"@,
        SOCATFILE@,
        endpoint(master, baud_rate, user_id, group_id),
        endpoint(slave, baud_rate, user_id, group_id),
    ]
}

/// What is said once a link was created.
pub open spec fn created(r: Record) -> Seq<char> {
    "Created instance: "@ + line_of(r)
}

/// What is said once a link was torn down.
pub open spec fn killed(pid: int) -> Seq<char> {
    "Instance killed: "@ + decimal(pid)
}

impl State {
    /// Writes the record for a developer.
    pub fn describe(&self) -> (s: String)
        ensures
            s@ == describe_spec(self@),
    {
        let mut s = String::from_str("State(");
        s.append(format_i32(self.pid).as_str());
        s.append(", ");
        s.append(self.master.as_str());
        s.append(", ");
        s.append(self.slave.as_str());
        s.append(", ");
        s.append(format_i32(self.baud_rate).as_str());
        s.append(")");
        s
    }
}

/// Writes the line that shows `instance`.
pub fn entry_line(instance: &State) -> (s: String)
    ensures
        s@ == entry(instance@),
{
    let mut s = String::from_str("[");
    s.append(format_i32(instance.pid).as_str());
    s.append("], ");
    s.append(instance.master.as_str());
    s.append(" -> ");
    s.append(instance.slave.as_str());
    s.append(" at baud ");
    s.append(format_i32(instance.baud_rate).as_str());
    s
}

/// Writes what is shown of the registry, line by line.
pub fn print_state(instances: &Vec<State>) -> (lines: Vec<String>)
    ensures
        strings(lines@) == listing(records(instances@)),
{
    let mut lines: Vec<String> = Vec::new();
    lines.push(String::from_str("Current instances:"));
    if instances.len() == 0 {
        lines.push(String::from_str("No instances yet. See `virtualserial help create`."));
        assert(strings(lines@) == listing(records(instances@)));
        return lines;
    }
    let ghost rs = records(instances@);
    let mut i: usize = 0;
    while i < instances.len()
        invariant
            i <= instances.len(),
            rs == records(instances@),
            strings(lines@) == seq!["Current instances:"@] + entries(rs.take(i as int)),
        decreases instances.len() - i,
    {
        let line = entry_line(&instances[i]);
        let ghost had = lines@;
        lines.push(line);
        i += 1;
        proof {
            let want = seq!["Current instances:"@] + entries(rs.take(i as int));
            assert(strings(had).len() == had.len());
            assert(entries(rs.take(i - 1)).len() == i - 1);
            assert(entries(rs.take(i as int)).len() == i);
            assert(had.len() == i);
            assert(strings(lines@).len() == want.len());
            assert forall|k: int| 0 <= k < want.len() implies strings(lines@)[k] == want[k] by {
                if k < had.len() {
                    assert(strings(lines@)[k] == strings(had)[k]);
                    if k > 0 {
                        assert(strings(had)[k] == entries(rs.take(i - 1))[k - 1]);
                    }
                }
            }
            assert(strings(lines@) == want);
        }
    }
    assert(rs.take(i as int) == rs);
    lines
}

/// Writes how one end of a link is described to the bridging program.
pub fn endpoint_argument(path: &str, baud_rate: i32, user_id: i32, group_id: i32) -> (s: String)
    ensures
        s@ == endpoint(path@, baud_rate as int, user_id as int, group_id as int),
{
    let rate = format_i32(baud_rate);
    let mut s = String::from_str("pty,link=");
    s.append(path);
    s.append(",raw,echo=0,ispeed=");
    s.append(rate.as_str());
    s.append(",ospeed=");
    s.append(rate.as_str());
    s.append(",user=");
    s.append(format_i32(user_id).as_str());
    s.append(",group=");
    s.append(format_i32(group_id).as_str());
    s
}

/// Writes the arguments with which the bridging program is started for a
/// link between `master` and `slave`.
pub fn spawn_instance(
    master: &str,
    slave: &str,
    baud_rate: i32,
    user_id: i32,
    group_id: i32,
) -> (args: Vec<String>)
    ensures
        strings(args@) == arguments(
            master@,
            slave@,
            baud_rate as int,
            user_id as int,
            group_id as int,
        ),
{
    let mut args: Vec<String> = Vec::new();
    args.push(String::from_str("-d"));
    args.push(String::from_str("-d"));
    args.push(String::from_str("-d"));
    args.push(String::from_str("-d"));
    args.push(String::from_str("-lf"));
    args.push(String::from_str(SOCATFILE));
    args.push(endpoint_argument(master, baud_rate, user_id, group_id));
    args.push(endpoint_argument(slave, baud_rate, user_id, group_id));
    assert(strings(args@) == arguments(
        master@,
        slave@,
        baud_rate as int,
        user_id as int,
        group_id as int,
    ));
    args
}

/// Writes what is said once the link of `instance` was created.
pub fn created_message(instance: &State) -> (s: String)
    ensures
        s@ == created(instance@),
{
    let mut s = String::from_str("Created instance: ");
    s.append(instance_to_stateline(instance).as_str());
    s
}

/// Writes what is said once the link of process `pid` was torn down.
pub fn killed_message(pid: i32) -> (s: String)
    ensures
        s@ == killed(pid as int),
{
    let mut s = String::from_str("Instance killed: ");
    s.append(format_i32(pid).as_str());
    s
}

} // verus!
