use finger::account::{AccountIndex, AccountRecord};
use finger::aggregate::{aggregate, find_person, ingest, pending_marker, Sighting};
use finger::optout::{no_finger, nofinger_path, Probe};
use finger::person::{pw_ent_to_person, Person};
use finger::session::{
    pw_ent_to_where, ActiveSession, RecordKind, SessionRecord, Status, Terminal, Timestamp,
};

fn account(name: &str, uid: u32, gecos: &str) -> AccountRecord {
    AccountRecord {
        uid,
        username: name.to_string(),
        home_dir: format!("/home/{}", name),
        shell: "/bin/bash".to_string(),
        gecos: gecos.to_string(),
    }
}

fn login(user: &str, tty: &str, secs: i64) -> ActiveSession {
    ActiveSession {
        pid: 77,
        line: tty.to_string(),
        user: user.to_string(),
        host: "gate".to_string(),
        session: 70,
        time: Timestamp { secs, nanos: 0 },
    }
}

fn sighting(user: &str, tty: &str, secs: i64, probe: Probe) -> Sighting {
    Sighting {
        record: SessionRecord {
            kind: RecordKind::UserProcess,
            pid: 77,
            line: tty.to_string(),
            user: user.to_string(),
            host: "gate".to_string(),
            session: 70,
            time: Timestamp { secs, nanos: 0 },
        },
        probe,
        terminal: Terminal { writable: None, last_activity: None },
    }
}

fn nothing_known() -> Terminal {
    Terminal { writable: None, last_activity: None }
}

fn names(profiles: &[Person]) -> Vec<String> {
    profiles.iter().map(|p| p.username.clone()).collect()
}

fn ttys(person: &Person) -> Vec<String> {
    person.sessions.iter().map(|w| w.tty.clone()).collect()
}

#[test]
fn usernames_stay_unique_over_an_interleaved_stream() {
    let accounts = AccountIndex::build(vec![
        account("alice", 1000, "Alice"),
        account("bob", 1001, "Bob"),
        account("carol", 1002, "Carol"),
    ]);
    let stream = vec![
        sighting("bob", "pts/0", 1, Probe::Missing),
        sighting("alice", "pts/1", 2, Probe::Missing),
        sighting("bob", "pts/2", 3, Probe::Missing),
        sighting("carol", "pts/3", 4, Probe::Missing),
        sighting("alice", "pts/4", 5, Probe::Missing),
        sighting("bob", "pts/5", 6, Probe::Missing),
    ];
    let profiles = aggregate(&accounts, stream);
    assert_eq!(names(&profiles), vec!["bob", "alice", "carol"]);
}

#[test]
fn sessions_keep_the_order_of_the_stream() {
    let accounts = AccountIndex::build(vec![
        account("alice", 1000, "Alice"),
        account("bob", 1001, "Bob"),
    ]);
    let stream = vec![
        sighting("bob", "pts/0", 1, Probe::Missing),
        sighting("alice", "pts/1", 2, Probe::Missing),
        sighting("bob", "pts/2", 3, Probe::Missing),
        sighting("alice", "pts/4", 5, Probe::Missing),
        sighting("bob", "pts/5", 6, Probe::Missing),
    ];
    let profiles = aggregate(&accounts, stream);
    assert_eq!(ttys(&profiles[0]), vec!["pts/0", "pts/2", "pts/5"]);
    assert_eq!(ttys(&profiles[1]), vec!["pts/1", "pts/4"]);
}

#[test]
fn user_without_account_leaves_other_profiles_alone() {
    let accounts = AccountIndex::build(vec![account("alice", 1000, "Alice")]);
    let mut profiles: Vec<Person> = Vec::new();
    ingest(&login("alice", "pts/0", 1), &accounts, Probe::Missing, nothing_known(), &mut profiles);
    let before = profiles.clone();
    ingest(&login("mallory", "pts/9", 2), &accounts, Probe::Missing, nothing_known(), &mut profiles);
    assert_eq!(profiles, before);
    assert_eq!(pending_marker(&login("mallory", "pts/9", 2), &accounts, &profiles), None);
}

#[test]
fn opted_out_user_stays_hidden_between_sessions_of_others() {
    let accounts = AccountIndex::build(vec![
        account("alice", 1000, "Alice"),
        account("bob", 1001, "Bob"),
    ]);
    let stream = vec![
        sighting("alice", "pts/0", 1, Probe::Found),
        sighting("bob", "pts/1", 2, Probe::Missing),
        sighting("alice", "pts/2", 3, Probe::Found),
        sighting("bob", "pts/3", 4, Probe::Missing),
        sighting("alice", "pts/4", 5, Probe::Found),
    ];
    let profiles = aggregate(&accounts, stream);
    assert_eq!(names(&profiles), vec!["bob"]);
    assert_eq!(ttys(&profiles[0]), vec!["pts/1", "pts/3"]);
}

#[test]
fn probe_is_not_consulted_once_a_profile_exists() {
    let accounts = AccountIndex::build(vec![account("alice", 1000, "Alice")]);
    let mut profiles: Vec<Person> = Vec::new();
    let second = login("alice", "pts/1", 2);
    ingest(&login("alice", "pts/0", 1), &accounts, Probe::Missing, nothing_known(), &mut profiles);
    assert_eq!(pending_marker(&second, &accounts, &profiles), None);
    ingest(&second, &accounts, Probe::Found, nothing_known(), &mut profiles);
    assert_eq!(names(&profiles), vec!["alice"]);
    assert_eq!(ttys(&profiles[0]), vec!["pts/0", "pts/1"]);
}

#[test]
fn sessions_dropped_before_the_marker_went_are_not_listed() {
    let accounts = AccountIndex::build(vec![account("alice", 1000, "Alice")]);
    let stream = vec![
        sighting("alice", "pts/0", 1, Probe::Found),
        sighting("alice", "pts/1", 2, Probe::Missing),
        sighting("alice", "pts/2", 3, Probe::Found),
    ];
    let profiles = aggregate(&accounts, stream);
    assert_eq!(names(&profiles), vec!["alice"]);
    assert_eq!(ttys(&profiles[0]), vec!["pts/1", "pts/2"]);
}

#[test]
fn same_session_twice_is_listed_twice() {
    let accounts = AccountIndex::build(vec![account("alice", 1000, "Alice")]);
    let mut profiles: Vec<Person> = Vec::new();
    let once = login("alice", "pts/0", 1);
    ingest(&once, &accounts, Probe::Missing, nothing_known(), &mut profiles);
    ingest(&once, &accounts, Probe::Missing, nothing_known(), &mut profiles);
    assert_eq!(profiles.len(), 1);
    assert_eq!(profiles[0].sessions.len(), 2);
    assert_eq!(profiles[0].sessions[0], profiles[0].sessions[1]);
}

#[test]
fn failed_probe_does_not_suppress() {
    assert!(no_finger(Probe::Found));
    assert!(!no_finger(Probe::Missing));
    assert!(!no_finger(Probe::Failed));
    let accounts = AccountIndex::build(vec![account("alice", 1000, "Alice")]);
    let mut profiles: Vec<Person> = Vec::new();
    ingest(&login("alice", "pts/0", 1), &accounts, Probe::Failed, nothing_known(), &mut profiles);
    assert_eq!(names(&profiles), vec!["alice"]);
}

#[test]
fn marker_path_is_inside_the_home_directory() {
    assert_eq!(nofinger_path("/home/alice"), "/home/alice/.nofinger");
    assert_eq!(nofinger_path(""), "/.nofinger");
}

#[test]
fn find_person_gives_the_first_match() {
    let mut twice = pw_ent_to_person(&account("alice", 1, ""));
    twice.uid = 2;
    let profiles = vec![
        pw_ent_to_person(&account("bob", 7, "")),
        pw_ent_to_person(&account("alice", 1, "")),
        twice,
    ];
    assert_eq!(find_person(&profiles, "alice"), Some(1));
    assert_eq!(find_person(&profiles, "bob"), Some(0));
    assert_eq!(find_person(&profiles, "ali"), None);
    assert_eq!(find_person(&[].to_vec(), "alice"), None);
}

#[test]
fn first_account_of_a_name_seeds_the_profile() {
    let accounts = AccountIndex::build(vec![
        account("alice", 1000, "First"),
        account("alice", 2000, "Second"),
    ]);
    let profiles = aggregate(&accounts, vec![sighting("alice", "pts/0", 1, Probe::Missing)]);
    assert_eq!(profiles.len(), 1);
    assert_eq!(profiles[0].uid, 1000);
    assert_eq!(profiles[0].realname, "First");
}

#[test]
fn descriptor_takes_its_times_from_the_session() {
    let s = login("alice", "pts/0", 1_650_000_000);
    let w = pw_ent_to_where(&s, nothing_known());
    assert_eq!(w.status, Status::LoggedIn);
    assert_eq!(w.login_at, Timestamp { secs: 1_650_000_000, nanos: 0 });
    assert_eq!(w.idle_time, Timestamp { secs: 1_650_000_000, nanos: 0 });
    assert_eq!(w.tty, "pts/0");
    assert_eq!(w.host, "gate");
    assert_eq!(w.session, 70);
    assert!(!w.writable);
}

#[test]
fn descriptor_prefers_the_last_activity_for_idle_time() {
    let s = login("alice", "pts/0", 100);
    let used = Timestamp { secs: 160, nanos: 5 };
    let w = pw_ent_to_where(&s, Terminal { writable: Some(true), last_activity: Some(used) });
    assert_eq!(w.login_at, Timestamp { secs: 100, nanos: 0 });
    assert_eq!(w.idle_time, used);
    assert!(w.writable);
    let closed = pw_ent_to_where(&s, Terminal { writable: Some(false), last_activity: None });
    assert!(!closed.writable);
}

#[test]
fn empty_stream_gives_no_profiles() {
    let accounts = AccountIndex::build(vec![account("alice", 1000, "Alice")]);
    assert!(aggregate(&accounts, Vec::new()).is_empty());
}
