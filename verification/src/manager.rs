//! The steps of one invocation, and their order.
//!
//! An invocation lists the registry, creates a link or tears one down. The
//! library decides what is to be done next; the caller does it and reports
//! what came of it. Nothing is tried twice.
//!
//! A link is created by starting its bridging process and then recording
//! it. Nothing undoes the start if the record cannot be written: the
//! process then runs on, unrecorded. A link is torn down by taking its
//! record out of the registry and then signalling its process, in that
//! order, so that the registry is right even where the signal fails. The
//! signal is sent whether or not the registry held a record of the process.

use vstd::prelude::*;
use crate::present::{
    arguments, created, created_message, killed, killed_message, listing, print_state,
    spawn_instance,
};
use crate::record::{instance_to_stateline, line_of, Record, RegistryError, State};
use crate::store::{get_state, load_spec, remove_instance_from_file, text_of, without};
use crate::text::strings;

verus! {

/// What an invocation is asked to do.
#[derive(Debug, PartialEq, Eq)]
pub enum Command {
    /// List the links.
    Show,
    /// Create a link between two paths.
    Create { master: String, slave: String, baud_rate: i32, user_id: i32, group_id: i32 },
    /// Tear down the link of a process.
    Kill { pid: i32 },
}

/// What the caller is to do next.
#[derive(Debug, PartialEq, Eq)]
pub enum Action {
    /// Read the whole backing file, after creating it empty if it is not
    /// there.
    Read,
    /// Start the bridging program with these arguments and let it run on.
    Launch(Vec<String>),
    /// Append this text to the backing file, creating the file if it is
    /// not there.
    Append(String),
    /// Replace the contents of the backing file by this text.
    Rewrite(String),
    /// Send the termination signal to this process.
    Signal(i32),
}

/// What came of an action.
#[derive(Debug, PartialEq, Eq)]
pub enum Outcome {
    /// It could not be done.
    Failed,
    /// It was done, and there is nothing to hand back.
    Done,
    /// The backing file was read, and held this.
    Contents(String),
    /// The bridging program was started as this process.
    Started(i32),
}

/// An invocation under way: what it waits for.
#[derive(Debug, PartialEq, Eq)]
pub enum Session {
    /// The contents of the backing file, to list them.
    Listing,
    /// The contents of the backing file, to take a process out of them.
    Removing { pid: i32 },
    /// The backing file to be rewritten without the process.
    Rewriting { pid: i32 },
    /// The process to be signalled.
    Signalling { pid: i32 },
    /// The bridging program to be started.
    Launching { master: String, slave: String, baud_rate: i32 },
    /// The record of the new link to be appended.
    Appending { instance: State },
}

/// How an invocation goes on after an outcome.
#[derive(Debug, PartialEq, Eq)]
pub enum Next {
    /// With another action.
    Do(Session, Action),
    /// It ends well, with these lines to print. `unsaved` tells that a
    /// process was started and its record could not be written.
    Finish { lines: Vec<String>, unsaved: bool },
    /// It is given up.
    Fail(RegistryError),
}

/// A `Command` as mathematical values.
pub enum CommandView {
    Show,
    Create { master: Seq<char>, slave: Seq<char>, baud_rate: int, user_id: int, group_id: int },
    Kill { pid: int },
}

/// An `Action` as mathematical values.
pub enum ActionView {
    Read,
    Launch(Seq<Seq<char>>),
    Append(Seq<char>),
    Rewrite(Seq<char>),
    Signal(int),
}

/// An `Outcome` as mathematical values.
pub enum OutcomeView {
    Failed,
    Done,
    Contents(Seq<char>),
    Started(int),
}

/// A `Session` as mathematical values.
pub enum SessionView {
    Listing,
    Removing { pid: int },
    Rewriting { pid: int },
    Signalling { pid: int },
    Launching { master: Seq<char>, slave: Seq<char>, baud_rate: int },
    Appending { instance: Record },
}

/// A `Next` as mathematical values.
pub enum NextView {
    Do(SessionView, ActionView),
    Finish { lines: Seq<Seq<char>>, unsaved: bool },
    Fail(RegistryError),
}

impl View for Command {
    type V = CommandView;

    open spec fn view(&self) -> CommandView {
        match *self {
            Command::Show => CommandView::Show,
            Command::Create { master, slave, baud_rate, user_id, group_id } => CommandView::Create {
                master: master@,
                slave: slave@,
                baud_rate: baud_rate as int,
                user_id: user_id as int,
                group_id: group_id as int,
            },
            Command::Kill { pid } => CommandView::Kill { pid: pid as int },
        }
    }
}

impl View for Action {
    type V = ActionView;

    open spec fn view(&self) -> ActionView {
        match *self {
            Action::Read => ActionView::Read,
            Action::Launch(args) => ActionView::Launch(strings(args@)),
            Action::Append(text) => ActionView::Append(text@),
            Action::Rewrite(text) => ActionView::Rewrite(text@),
            Action::Signal(pid) => ActionView::Signal(pid as int),
        }
    }
}

impl View for Outcome {
    type V = OutcomeView;

    open spec fn view(&self) -> OutcomeView {
        match *self {
            Outcome::Failed => OutcomeView::Failed,
            Outcome::Done => OutcomeView::Done,
            Outcome::Contents(text) => OutcomeView::Contents(text@),
            Outcome::Started(pid) => OutcomeView::Started(pid as int),
        }
    }
}

impl View for Session {
    type V = SessionView;

    open spec fn view(&self) -> SessionView {
        match *self {
            Session::Listing => SessionView::Listing,
            Session::Removing { pid } => SessionView::Removing { pid: pid as int },
            Session::Rewriting { pid } => SessionView::Rewriting { pid: pid as int },
            Session::Signalling { pid } => SessionView::Signalling { pid: pid as int },
            Session::Launching { master, slave, baud_rate } => SessionView::Launching {
                master: master@,
                slave: slave@,
                baud_rate: baud_rate as int,
            },
            Session::Appending { instance } => SessionView::Appending { instance: instance@ },
        }
    }
}

impl View for Next {
    type V = NextView;

    open spec fn view(&self) -> NextView {
        match *self {
            Next::Do(session, action) => NextView::Do(session@, action@),
            Next::Finish { lines, unsaved } => NextView::Finish { lines: strings(lines@), unsaved },
            Next::Fail(e) => NextView::Fail(e),
        }
    }
}

/// How an invocation starts: listing and tearing down start by reading
/// the registry, creating starts by starting the bridging program.
pub open spec fn begin_spec(command: CommandView) -> (SessionView, ActionView) {
    match command {
        CommandView::Show => (SessionView::Listing, ActionView::Read),
        CommandView::Create { master, slave, baud_rate, user_id, group_id } => (
            SessionView::Launching { master, slave, baud_rate },
            ActionView::Launch(arguments(master, slave, baud_rate, user_id, group_id)),
        ),
        CommandView::Kill { pid } => (SessionView::Removing { pid }, ActionView::Read),
    }
}

/// How an invocation goes on. Any outcome but the one that the pending
/// action gives when it succeeds counts as its failure.
pub open spec fn step_spec(session: SessionView, outcome: OutcomeView) -> NextView {
    match session {
        SessionView::Listing => match outcome {
            OutcomeView::Contents(text) => match load_spec(text) {
                Some(rs) => NextView::Finish { lines: listing(rs), unsaved: false },
                None => NextView::Fail(RegistryError::MalformedRecord),
            },
            _ => NextView::Fail(RegistryError::StoreUnreadable),
        },
        SessionView::Removing { pid } => match outcome {
            OutcomeView::Contents(text) => match load_spec(text) {
                Some(rs) => NextView::Do(
                    SessionView::Rewriting { pid },
                    ActionView::Rewrite(text_of(without(rs, pid))),
                ),
                None => NextView::Fail(RegistryError::MalformedRecord),
            },
            _ => NextView::Fail(RegistryError::StoreUnreadable),
        },
        SessionView::Rewriting { pid } => match outcome {
            OutcomeView::Done => NextView::Do(
                SessionView::Signalling { pid },
                ActionView::Signal(pid),
            ),
            _ => NextView::Fail(RegistryError::StoreUnreadable),
        },
        SessionView::Signalling { pid } => NextView::Finish {
            lines: seq![killed(pid)],
            unsaved: false,
        },
        SessionView::Launching { master, slave, baud_rate } => match outcome {
            OutcomeView::Started(pid) => {
                let instance = Record { pid, master, slave, baud_rate };
                NextView::Do(
                    SessionView::Appending { instance },
                    ActionView::Append(line_of(instance) + seq!['\n']),
                )
            },
            _ => NextView::Fail(RegistryError::LaunchFailed),
        },
        SessionView::Appending { instance } => NextView::Finish {
            lines: seq![created(instance)],
            unsaved: !(outcome is Done),
        },
    }
}

/// What the backing file holds once `action` was done, if it held `text`
/// before.
pub open spec fn effect(action: ActionView, text: Seq<char>) -> Seq<char> {
    match action {
        ActionView::Append(more) => text + more,
        ActionView::Rewrite(new) => new,
        _ => text,
    }
}

/// Starts the creation of a link between `master` and `slave`: the
/// bridging program is to be started first.
pub fn create_instance(
    master: String,
    slave: String,
    baud_rate: i32,
    user_id: i32,
    group_id: i32,
) -> (r: (Session, Action))
    ensures
        (r.0@, r.1@) == begin_spec(
            CommandView::Create {
                master: master@,
                slave: slave@,
                baud_rate: baud_rate as int,
                user_id: user_id as int,
                group_id: group_id as int,
            },
        ),
{
    let args = spawn_instance(master.as_str(), slave.as_str(), baud_rate, user_id, group_id);
    (Session::Launching { master, slave, baud_rate }, Action::Launch(args))
}

/// Starts the tearing down of the link of process `pid`: the registry is
/// to be read first.
pub fn remove_instance(pid: i32) -> (r: (Session, Action))
    ensures
        (r.0@, r.1@) == begin_spec(CommandView::Kill { pid: pid as int }),
{
    (Session::Removing { pid }, Action::Read)
}

/// Starts an invocation.
pub fn begin(command: Command) -> (r: (Session, Action))
    ensures
        (r.0@, r.1@) == begin_spec(command@),
{
    match command {
        Command::Show => (Session::Listing, Action::Read),
        Command::Create { master, slave, baud_rate, user_id, group_id } => create_instance(
            master,
            slave,
            baud_rate,
            user_id,
            group_id,
        ),
        Command::Kill { pid } => remove_instance(pid),
    }
}

/// Goes on with an invocation after the pending action came to `outcome`.
pub fn step(session: Session, outcome: Outcome) -> (next: Next)
    ensures
        next@ == step_spec(session@, outcome@),
{
    match session {
        Session::Listing => match outcome {
            Outcome::Contents(text) => match get_state(text.as_str()) {
                Ok(instances) => Next::Finish { lines: print_state(&instances), unsaved: false },
                Err(e) => Next::Fail(e),
            },
            _ => Next::Fail(RegistryError::StoreUnreadable),
        },
        Session::Removing { pid } => match outcome {
            Outcome::Contents(text) => match remove_instance_from_file(text.as_str(), pid) {
                Ok(kept) => Next::Do(Session::Rewriting { pid }, Action::Rewrite(kept)),
                Err(e) => Next::Fail(e),
            },
            _ => Next::Fail(RegistryError::StoreUnreadable),
        },
        Session::Rewriting { pid } => match outcome {
            Outcome::Done => Next::Do(Session::Signalling { pid }, Action::Signal(pid)),
            _ => Next::Fail(RegistryError::StoreUnreadable),
        },
        Session::Signalling { pid } => {
            let mut lines: Vec<String> = Vec::new();
            lines.push(killed_message(pid));
            assert(strings(lines@) == seq![killed(pid as int)]);
            Next::Finish { lines, unsaved: false }
        },
        Session::Launching { master, slave, baud_rate } => match outcome {
            Outcome::Started(pid) => {
                let instance = State { pid, master, slave, baud_rate };
                let mut text = instance_to_stateline(&instance);
                text.push('\n');
                assert(text@ == line_of(instance@) + seq!['\n']);
                Next::Do(Session::Appending { instance }, Action::Append(text))
            },
            _ => Next::Fail(RegistryError::LaunchFailed),
        },
        Session::Appending { instance } => {
            let mut lines: Vec<String> = Vec::new();
            lines.push(created_message(&instance));
            assert(strings(lines@) == seq![created(instance@)]);
            let unsaved = match outcome {
                Outcome::Done => false,
                _ => true,
            };
            Next::Finish { lines, unsaved }
        },
    }
}

} // verus!
