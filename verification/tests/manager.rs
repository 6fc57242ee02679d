use virtualserial::manager::{begin, create_instance, remove_instance, step, Action, Command, Next, Outcome, Session};
use virtualserial::present::{created_message, killed_message, print_state, spawn_instance, SOCATFILE, STATEFILE};
use virtualserial::record::{RegistryError, State};
use virtualserial::store::get_state;

fn state(pid: i32, master: &str, slave: &str, baud_rate: i32) -> State {
    State { pid, master: master.to_string(), slave: slave.to_string(), baud_rate }
}

/// A backing file, a launcher and a process table, all in memory.
struct World {
    file: Option<String>,
    next_pid: Option<i32>,
    launched: Vec<Vec<String>>,
    signalled: Vec<i32>,
    writable: bool,
}

fn world(file: Option<&str>, next_pid: Option<i32>) -> World {
    World { file: file.map(String::from), next_pid, launched: vec![], signalled: vec![], writable: true }
}

fn perform(w: &mut World, action: Action) -> Outcome {
    match action {
        Action::Read => {
            let text = w.file.get_or_insert_with(String::new).clone();
            Outcome::Contents(text)
        }
        Action::Launch(args) => {
            w.launched.push(args);
            match w.next_pid {
                Some(pid) => Outcome::Started(pid),
                None => Outcome::Failed,
            }
        }
        Action::Append(text) => {
            if !w.writable {
                return Outcome::Failed;
            }
            w.file.get_or_insert_with(String::new).push_str(&text);
            Outcome::Done
        }
        Action::Rewrite(text) => {
            if !w.writable {
                return Outcome::Failed;
            }
            w.file = Some(text);
            Outcome::Done
        }
        Action::Signal(pid) => {
            w.signalled.push(pid);
            Outcome::Done
        }
    }
}

fn run(w: &mut World, command: Command) -> Next {
    let (mut session, mut action) = begin(command);
    loop {
        let outcome = perform(w, action);
        match step(session, outcome) {
            Next::Do(s, a) => {
                session = s;
                action = a;
            }
            end => return end,
        }
    }
}

fn create(master: &str, slave: &str, baud_rate: i32) -> Command {
    Command::Create {
        master: master.to_string(),
        slave: slave.to_string(),
        baud_rate,
        user_id: 501,
        group_id: 20,
    }
}

fn finished(lines: &[&str]) -> Next {
    Next::Finish { lines: lines.iter().map(|l| l.to_string()).collect(), unsaved: false }
}

#[test]
fn well_known_paths() {
    assert_eq!(STATEFILE, "/tmp/virtualserial");
    assert_eq!(SOCATFILE, "/tmp/virtualserial_socat");
}

#[test]
fn create_then_remove_from_an_empty_registry() {
    let mut w = world(None, Some(4242));
    let end = run(&mut w, create("/tmp/m", "/tmp/s", 9600));
    assert_eq!(end, finished(&["Created instance: 4242 /tmp/m /tmp/s 9600"]));
    assert_eq!(w.launched.len(), 1);
    assert_eq!(
        get_state(w.file.as_deref().unwrap()),
        Ok(vec![state(4242, "/tmp/m", "/tmp/s", 9600)])
    );
    assert!(w.signalled.is_empty());

    let end = run(&mut w, Command::Kill { pid: 4242 });
    assert_eq!(end, finished(&["Instance killed: 4242"]));
    assert_eq!(get_state(w.file.as_deref().unwrap()), Ok(vec![]));
    assert_eq!(w.file.as_deref(), Some(""));
    assert_eq!(w.signalled, vec![4242]);
}

#[test]
fn two_creates_give_two_records() {
    let mut w = world(Some(""), Some(100));
    run(&mut w, create("/tmp/a", "/tmp/b", 9600));
    w.next_pid = Some(101);
    run(&mut w, create("/tmp/c", "/tmp/d", 19200));
    let loaded = get_state(w.file.as_deref().unwrap()).unwrap();
    assert_eq!(loaded, vec![state(100, "/tmp/a", "/tmp/b", 9600), state(101, "/tmp/c", "/tmp/d", 19200)]);
    assert_ne!(loaded[0].pid, loaded[1].pid);
}

#[test]
fn launcher_gets_both_ends() {
    let mut w = world(Some(""), Some(7));
    run(&mut w, create("./master", "./slave", 115200));
    assert_eq!(
        w.launched,
        vec![vec![
            "-d".to_string(),
            "-d".to_string(),
            "-d".to_string(),
            "-d".to_string(),
            "-lf".to_string(),
            "/tmp/virtualserial_socat".to_string(),
            "pty,link=./master,raw,echo=0,ispeed=115200,ospeed=115200,user=501,group=20".to_string(),
            "pty,link=./slave,raw,echo=0,ispeed=115200,ospeed=115200,user=501,group=20".to_string(),
        ]]
    );
}

#[test]
fn spawn_arguments_name_owner_and_rate() {
    let args = spawn_instance("/tmp/m", "/tmp/s", 9600, 0, -1);
    assert_eq!(args.len(), 8);
    assert_eq!(args[6], "pty,link=/tmp/m,raw,echo=0,ispeed=9600,ospeed=9600,user=0,group=-1");
    assert_eq!(args[7], "pty,link=/tmp/s,raw,echo=0,ispeed=9600,ospeed=9600,user=0,group=-1");
}

#[test]
fn failed_launch_records_nothing() {
    let mut w = world(Some("1 a b 2\n"), None);
    let end = run(&mut w, create("/tmp/m", "/tmp/s", 9600));
    assert_eq!(end, Next::Fail(RegistryError::LaunchFailed));
    assert_eq!(w.file.as_deref(), Some("1 a b 2\n"));
    assert_eq!(w.launched.len(), 1);
}

#[test]
fn failed_append_leaves_the_process_running() {
    let mut w = world(Some("1 a b 2\n"), Some(55));
    w.writable = false;
    let end = run(&mut w, create("/tmp/m", "/tmp/s", 9600));
    assert_eq!(
        end,
        Next::Finish { lines: vec!["Created instance: 55 /tmp/m /tmp/s 9600".to_string()], unsaved: true }
    );
    assert_eq!(w.file.as_deref(), Some("1 a b 2\n"));
    assert!(w.signalled.is_empty());
}

#[test]
fn create_starts_with_the_launch() {
    let (session, action) = create_instance("/tmp/m".to_string(), "/tmp/s".to_string(), 9600, 1, 2);
    assert_eq!(
        session,
        Session::Launching { master: "/tmp/m".to_string(), slave: "/tmp/s".to_string(), baud_rate: 9600 }
    );
    assert_eq!(action, Action::Launch(spawn_instance("/tmp/m", "/tmp/s", 9600, 1, 2)));
    let next = step(session, Outcome::Started(31));
    assert_eq!(
        next,
        Next::Do(
            Session::Appending { instance: state(31, "/tmp/m", "/tmp/s", 9600) },
            Action::Append("31 /tmp/m /tmp/s 9600\n".to_string())
        )
    );
}

#[test]
fn remove_rewrites_before_it_signals() {
    let (session, action) = remove_instance(20);
    assert_eq!(session, Session::Removing { pid: 20 });
    assert_eq!(action, Action::Read);
    let next = step(session, Outcome::Contents("10 a b 1\n20 c d 2\n30 e f 3\n".to_string()));
    assert_eq!(
        next,
        Next::Do(Session::Rewriting { pid: 20 }, Action::Rewrite("10 a b 1\n30 e f 3\n".to_string()))
    );
    let next = step(Session::Rewriting { pid: 20 }, Outcome::Done);
    assert_eq!(next, Next::Do(Session::Signalling { pid: 20 }, Action::Signal(20)));
    let next = step(Session::Signalling { pid: 20 }, Outcome::Done);
    assert_eq!(next, finished(&["Instance killed: 20"]));
}

#[test]
fn remove_of_an_unknown_id_still_signals() {
    let mut w = world(Some("10 a b 1\n"), None);
    let end = run(&mut w, Command::Kill { pid: 99 });
    assert_eq!(end, finished(&["Instance killed: 99"]));
    assert_eq!(w.file.as_deref(), Some("10 a b 1\n"));
    assert_eq!(w.signalled, vec![99]);
}

#[test]
fn failed_signal_is_passed_over() {
    assert_eq!(step(Session::Signalling { pid: 5 }, Outcome::Failed), finished(&["Instance killed: 5"]));
}

#[test]
fn failed_rewrite_sends_no_signal() {
    let mut w = world(Some("10 a b 1\n"), None);
    w.writable = false;
    let end = run(&mut w, Command::Kill { pid: 10 });
    assert_eq!(end, Next::Fail(RegistryError::StoreUnreadable));
    assert!(w.signalled.is_empty());
    assert_eq!(w.file.as_deref(), Some("10 a b 1\n"));
}

#[test]
fn remove_from_a_corrupt_registry_sends_no_signal() {
    let mut w = world(Some("10 a b\n"), None);
    let end = run(&mut w, Command::Kill { pid: 10 });
    assert_eq!(end, Next::Fail(RegistryError::MalformedRecord));
    assert!(w.signalled.is_empty());
    assert_eq!(w.file.as_deref(), Some("10 a b\n"));
}

#[test]
fn unreadable_store_ends_the_invocation() {
    assert_eq!(step(Session::Listing, Outcome::Failed), Next::Fail(RegistryError::StoreUnreadable));
    assert_eq!(step(Session::Removing { pid: 1 }, Outcome::Failed), Next::Fail(RegistryError::StoreUnreadable));
    assert_eq!(step(Session::Listing, Outcome::Done), Next::Fail(RegistryError::StoreUnreadable));
}

#[test]
fn show_lists_in_file_order() {
    let mut w = world(Some("30 m3 s3 300\n10 m1 s1 100\n"), None);
    let end = run(&mut w, Command::Show);
    assert_eq!(
        end,
        finished(&["Current instances:", "[30], m3 -> s3 at baud 300", "[10], m1 -> s1 at baud 100"])
    );
    assert_eq!(w.file.as_deref(), Some("30 m3 s3 300\n10 m1 s1 100\n"));
}

#[test]
fn show_twice_shows_the_same() {
    let mut w = world(Some("30 m3 s3 300\n10 m1 s1 100\n"), None);
    let first = run(&mut w, Command::Show);
    let second = run(&mut w, Command::Show);
    assert_eq!(first, second);
}

#[test]
fn show_of_a_missing_file_creates_it_empty() {
    let mut w = world(None, None);
    let end = run(&mut w, Command::Show);
    assert_eq!(end, finished(&["Current instances:", "No instances yet. See `virtualserial help create`."]));
    assert_eq!(w.file.as_deref(), Some(""));
}

#[test]
fn show_of_a_corrupt_registry_fails() {
    let mut w = world(Some("10 /tmp/m /tmp/s\n"), None);
    assert_eq!(run(&mut w, Command::Show), Next::Fail(RegistryError::MalformedRecord));
}

#[test]
fn prints_a_hint_for_an_empty_registry() {
    assert_eq!(
        print_state(&vec![]),
        vec!["Current instances:", "No instances yet. See `virtualserial help create`."]
    );
}

#[test]
fn prints_one_line_per_record() {
    assert_eq!(
        print_state(&vec![state(4242, "/tmp/m", "/tmp/s", 9600), state(-1, "a", "b", 0)]),
        vec!["Current instances:", "[4242], /tmp/m -> /tmp/s at baud 9600", "[-1], a -> b at baud 0"]
    );
}

#[test]
fn messages() {
    assert_eq!(created_message(&state(1, "m", "s", 2)), "Created instance: 1 m s 2");
    assert_eq!(killed_message(4242), "Instance killed: 4242");
}
