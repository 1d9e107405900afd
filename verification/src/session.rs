//! Session records, the ones among them that are live logins, and the
//! descriptor that a profile keeps of each login.

use vstd::prelude::*;
use vstd::string::*;

verus! {

/// A point in time: seconds since the Unix epoch and the nanoseconds into that second.
#[derive(Clone, Copy, Debug, PartialEq, Eq, Structural)]
pub struct Timestamp {
    pub secs: i64,
    pub nanos: u32,
}

/// What a record of the session store reports.
#[derive(Clone, Copy, Debug, PartialEq, Eq, Structural)]
pub enum RecordKind {
    Empty,
    RunLevel,
    BootTime,
    ShutdownTime,
    NewTime,
    OldTime,
    InitProcess,
    LoginProcess,
    UserProcess,
    DeadProcess,
    Accounting,
}

/// One record of the session store, whatever its kind. A field that the kind
/// does not carry is empty or zero.
#[derive(Clone, Debug, PartialEq, Eq)]
pub struct SessionRecord {
    pub kind: RecordKind,
    pub pid: i32,
    pub line: String,
    pub user: String,
    pub host: String,
    pub session: i32,
    pub time: Timestamp,
}

/// A session record as plain values.
pub struct SessionView {
    pub kind: RecordKind,
    pub pid: i32,
    pub line: Seq<char>,
    pub user: Seq<char>,
    pub host: Seq<char>,
    pub session: i32,
    pub time: Timestamp,
}

impl View for SessionRecord {
    type V = SessionView;

    open spec fn view(&self) -> SessionView {
        SessionView {
            kind: self.kind,
            pid: self.pid,
            line: self.line@,
            user: self.user@,
            host: self.host@,
            session: self.session,
            time: self.time,
        }
    }
}

/// The payload of a record that stands for a live login of a user.
#[derive(Clone, Debug, PartialEq, Eq)]
pub struct ActiveSession {
    pub pid: i32,
    pub line: String,
    pub user: String,
    pub host: String,
    pub session: i32,
    pub time: Timestamp,
}

/// A live login as plain values.
pub struct ActiveView {
    pub pid: i32,
    pub line: Seq<char>,
    pub user: Seq<char>,
    pub host: Seq<char>,
    pub session: i32,
    pub time: Timestamp,
}

impl View for ActiveSession {
    type V = ActiveView;

    open spec fn view(&self) -> ActiveView {
        ActiveView {
            pid: self.pid,
            line: self.line@,
            user: self.user@,
            host: self.host@,
            session: self.session,
            time: self.time,
        }
    }
}

/// The live login that a record stands for: its payload where the record is of
/// the user-process kind, nothing for every other kind.
pub open spec fn active_of(record: SessionView) -> Option<ActiveView> {
    if record.kind == RecordKind::UserProcess {
        Some(
            ActiveView {
                pid: record.pid,
                line: record.line,
                user: record.user,
                host: record.host,
                session: record.session,
                time: record.time,
            },
        )
    } else {
        None
    }
}

/// The plain values of a live login that may be missing.
pub open spec fn classified_view(active: Option<ActiveSession>) -> Option<ActiveView> {
    match active {
        Some(a) => Some(a@),
        None => None,
    }
}

/// Tells a live login from the other records of the session store, which are dropped.
pub fn classify(record: SessionRecord) -> (r: Option<ActiveSession>)
    ensures
        classified_view(r) == active_of(record@),
{
    match record.kind {
        RecordKind::UserProcess => Some(
            ActiveSession {
                pid: record.pid,
                line: record.line,
                user: record.user,
                host: record.host,
                session: record.session,
                time: record.time,
            },
        ),
        _ => None,
    }
}

/// Where a descriptor comes from.
#[derive(Clone, Copy, Debug, PartialEq, Eq, Structural)]
pub enum Status {
    /// A last login on record, of a user who is not logged in now. Live sessions
    /// never give this.
    LastLog,
    /// A login that the session store reports as live.
    LoggedIn,
}

/// What is known of the terminal of a session at the time of the snapshot.
#[derive(Clone, Copy, Debug, PartialEq, Eq)]
pub struct Terminal {
    /// Whether the terminal takes messages from other users; `None` where that
    /// could not be found out.
    pub writable: Option<bool>,
    /// When the terminal was last used; `None` where only the time of login is known.
    pub last_activity: Option<Timestamp>,
}

/// One login of a user.
#[derive(Clone, Debug, PartialEq, Eq)]
pub struct Where {
    pub status: Status,
    pub login_at: Timestamp,
    pub idle_time: Timestamp,
    pub tty: String,
    pub host: String,
    pub session: i32,
    pub writable: bool,
}

/// A descriptor as plain values.
pub struct WhereView {
    pub status: Status,
    pub login_at: Timestamp,
    pub idle_time: Timestamp,
    pub tty: Seq<char>,
    pub host: Seq<char>,
    pub session: i32,
    pub writable: bool,
}

impl View for Where {
    type V = WhereView;

    open spec fn view(&self) -> WhereView {
        WhereView {
            status: self.status,
            login_at: self.login_at,
            idle_time: self.idle_time,
            tty: self.tty@,
            host: self.host@,
            session: self.session,
            writable: self.writable,
        }
    }
}

/// The descriptors of a list, as plain values and in the same order.
pub open spec fn where_views(list: Seq<Where>) -> Seq<WhereView> {
    list.map_values(|w: Where| w@)
}

/// The descriptor of a live login. Terminal, host and session id are those of
/// the session, and so is the time of login. Idle time counts from the last use
/// of the terminal where that is known, from the login otherwise. A terminal of
/// which nothing is known counts as not writable.
pub open spec fn descriptor(active: ActiveView, terminal: Terminal) -> WhereView {
    WhereView {
        status: Status::LoggedIn,
        login_at: active.time,
        idle_time: match terminal.last_activity {
            Some(t) => t,
            None => active.time,
        },
        tty: active.line,
        host: active.host,
        session: active.session,
        writable: terminal.writable == Some(true),
    }
}

/// Builds the descriptor of a live login.
pub fn pw_ent_to_where(active: &ActiveSession, terminal: Terminal) -> (r: Where)
    ensures
        r@ == descriptor(active@, terminal),
{
    Where {
        status: Status::LoggedIn,
        login_at: active.time,
        idle_time: match terminal.last_activity {
            Some(t) => t,
            None => active.time,
        },
        tty: active.line.clone(),
        host: active.host.clone(),
        session: active.session,
        writable: match terminal.writable {
            Some(w) => w,
            None => false,
        },
    }
}

} // verus!
