//! The aggregation of live logins into one profile per user.

use crate::account::{AccountIndex, AccountView};
use crate::laws::{lemma_ingest_keeps_usernames_unique, lemma_usernames_unique};
use crate::optout::{marker_path, no_finger, nofinger_path, Probe};
use crate::person::{person_of, person_views, pw_ent_to_person, Person, PersonView};
use crate::session::{
    active_of, classify, descriptor, pw_ent_to_where, where_views, ActiveSession, ActiveView,
    SessionRecord, SessionView, Terminal,
};
use crate::text::{lemma_found_first, lemma_not_found};
use vstd::prelude::*;
use vstd::string::*;

verus! {

/// The usernames of a list of profiles, in the order of the profiles.
pub open spec fn usernames(profiles: Seq<PersonView>) -> Seq<Seq<char>> {
    profiles.map_values(|p: PersonView| p.username)
}

/// Index of the first profile that bears `user` as its username.
fn position(profiles: &Vec<Person>, user: &String) -> (r: Option<usize>)
    ensures
        match r {
            Some(i) => i < profiles@.len() && usernames(person_views(profiles@)).index_of_first(
                user@,
            ) == Some(i as int),
            None => usernames(person_views(profiles@)).index_of_first(user@) is None,
        },
{
    let ghost names = usernames(person_views(profiles@));
    let mut i: usize = 0;
    while i < profiles.len()
        invariant
            i <= profiles@.len(),
            names == usernames(person_views(profiles@)),
            forall|j: int| 0 <= j < i ==> names[j] != user@,
        decreases profiles@.len() - i,
    {
        if profiles[i].username == *user {
            proof {
                lemma_found_first(names, user@, i as int);
            }
            return Some(i);
        }
        i = i + 1;
    }
    proof {
        lemma_not_found(names, user@);
    }
    None
}

/// Index of the profile of `user`: of the first one that bears the username,
/// letter for letter.
pub fn find_person(profiles: &Vec<Person>, user: &str) -> (r: Option<usize>)
    ensures
        match r {
            Some(i) => i < profiles@.len() && usernames(person_views(profiles@)).index_of_first(
                user@,
            ) == Some(i as int),
            None => usernames(person_views(profiles@)).index_of_first(user@) is None,
        },
{
    let key = String::from_str(user);
    position(profiles, &key)
}

/// The profiles after one live login has been taken in.
///
/// The login goes to the first profile that bears its username. Where there is
/// none, the account of that name decides: without an account nothing changes,
/// and nothing changes either where the marker of the account's home directory
/// was found. Otherwise a profile is started from the account, at the end of the
/// list, and the login is its first. The probe is looked at in that case alone.
pub open spec fn ingested(
    profiles: Seq<PersonView>,
    accounts: Map<Seq<char>, AccountView>,
    active: ActiveView,
    probe: Probe,
    terminal: Terminal,
) -> Seq<PersonView> {
    let login = descriptor(active, terminal);
    match usernames(profiles).index_of_first(active.user) {
        Some(i) => profiles.update(i, profiles[i].with_session(login)),
        None => if accounts.contains_key(active.user) && probe != Probe::Found {
            profiles.push(person_of(accounts[active.user]).with_session(login))
        } else {
            profiles
        },
    }
}

/// Takes one live login into the profiles: it is listed under the profile of
/// its user, which is started from the account where the user has none yet, or
/// dropped where the user has no account or opted out.
///
/// `probe` says what looking for the opt-out marker of the user came to. It
/// is read only where `pending_marker` names a path for this login; in every
/// other case any value will do. `terminal` is the state of the terminal of
/// the login.
pub fn ingest(
    active: &ActiveSession,
    accounts: &AccountIndex,
    probe: Probe,
    terminal: Terminal,
    profiles: &mut Vec<Person>,
)
    ensures
        person_views(final(profiles)@) == ingested(
            person_views(old(profiles)@),
            accounts@,
            active@,
            probe,
            terminal,
        ),
        usernames(person_views(old(profiles)@)).no_duplicates() ==> usernames(
            person_views(final(profiles)@),
        ).no_duplicates(),
{
    let ghost before = person_views(profiles@);
    proof {
        use_type_invariant(accounts);
        accounts.lemma_keyed();
        if usernames(before).no_duplicates() {
            lemma_ingest_keeps_usernames_unique(before, accounts@, active@, probe, terminal);
        }
    }
    let ghost login = descriptor(active@, terminal);
    let i = match position(profiles, &active.user) {
        Some(i) => i,
        None => {
            let account = match accounts.find(active.user.as_str()) {
                Some(a) => a,
                None => {
                    return;
                },
            };
            if no_finger(probe) {
                return;
            }
            profiles.push(pw_ent_to_person(account));
            profiles.len() - 1
        },
    };
    let ghost listed = profiles@;
    proof {
        if listed.len() > before.len() {
            assert(person_views(listed) =~= before.push(person_of(accounts@[active@.user])));
        }
    }
    profiles[i].sessions.push(pw_ent_to_where(active, terminal));
    proof {
        assert(where_views(profiles@[i as int].sessions@) =~= where_views(
            listed[i as int].sessions@,
        ).push(login));
        assert(person_views(profiles@) =~= person_views(listed).update(
            i as int,
            listed[i as int]@.with_session(login),
        ));
        assert(person_views(profiles@) == ingested(before, accounts@, active@, probe, terminal));
    }
}

/// The marker to look for before a login of `user` is taken in: that of the
/// account's home directory, where `user` has an account and no profile yet.
/// In every other case no probe bears on what becomes of the login.
pub open spec fn marker_wanted(
    profiles: Seq<PersonView>,
    accounts: Map<Seq<char>, AccountView>,
    user: Seq<char>,
) -> Option<Seq<char>> {
    if usernames(profiles).index_of_first(user) is None && accounts.contains_key(user) {
        Some(marker_path(accounts[user].home_dir))
    } else {
        None
    }
}

/// The characters of a string that may be missing.
pub open spec fn optional_string(s: Option<String>) -> Option<Seq<char>> {
    match s {
        Some(t) => Some(t@),
        None => None,
    }
}

/// The path to probe before `active` is taken in, if its fate hangs on a probe.
pub fn pending_marker(active: &ActiveSession, accounts: &AccountIndex, profiles: &Vec<Person>) -> (r:
    Option<String>)
    ensures
        optional_string(r) == marker_wanted(person_views(profiles@), accounts@, active@.user),
{
    match position(profiles, &active.user) {
        Some(_) => None,
        None => match accounts.find(active.user.as_str()) {
            Some(account) => Some(nofinger_path(account.home_dir.as_str())),
            None => None,
        },
    }
}

/// One record of the session store together with what the outside world said
/// when it was looked at: the probe of the opt-out marker of its user's home
/// directory, and the state of its terminal.
#[derive(Clone, Debug, PartialEq, Eq)]
pub struct Sighting {
    pub record: SessionRecord,
    pub probe: Probe,
    pub terminal: Terminal,
}

/// A sighting as plain values.
pub struct SightingView {
    pub record: SessionView,
    pub probe: Probe,
    pub terminal: Terminal,
}

impl View for Sighting {
    type V = SightingView;

    open spec fn view(&self) -> SightingView {
        SightingView { record: self.record@, probe: self.probe, terminal: self.terminal }
    }
}

/// The sightings of a list, as plain values and in the same order.
pub open spec fn sighting_views(list: Seq<Sighting>) -> Seq<SightingView> {
    list.map_values(|e: Sighting| e@)
}

/// The profiles after one more sighting: a live login is taken in, any other
/// record changes nothing.
pub open spec fn advanced(
    profiles: Seq<PersonView>,
    accounts: Map<Seq<char>, AccountView>,
    sighting: SightingView,
) -> Seq<PersonView> {
    match active_of(sighting.record) {
        Some(active) => ingested(profiles, accounts, active, sighting.probe, sighting.terminal),
        None => profiles,
    }
}

/// The profiles that a stream of sightings leaves behind, starting from none
/// and taking the sightings in their order.
pub open spec fn aggregated(
    accounts: Map<Seq<char>, AccountView>,
    stream: Seq<SightingView>,
) -> Seq<PersonView>
    decreases stream.len(),
{
    if stream.len() == 0 {
        Seq::empty()
    } else {
        advanced(aggregated(accounts, stream.drop_last()), accounts, stream.last())
    }
}

/// Takes one sighting into the profiles.
pub fn advance(sighting: Sighting, accounts: &AccountIndex, profiles: &mut Vec<Person>)
    ensures
        person_views(final(profiles)@) == advanced(
            person_views(old(profiles)@),
            accounts@,
            sighting@,
        ),
{
    let probe = sighting.probe;
    let terminal = sighting.terminal;
    match classify(sighting.record) {
        Some(active) => ingest(&active, accounts, probe, terminal, profiles),
        None => {},
    }
}

/// The profiles of a whole stream of sightings.
pub fn aggregate(accounts: &AccountIndex, stream: Vec<Sighting>) -> (r: Vec<Person>)
    ensures
        person_views(r@) == aggregated(accounts@, sighting_views(stream@)),
        usernames(person_views(r@)).no_duplicates(),
{
    let mut profiles: Vec<Person> = Vec::new();
    let ghost all = sighting_views(stream@);
    for sighting in it: stream
        invariant
            all == sighting_views(it.seq()),
            person_views(profiles@) == aggregated(accounts@, all.take(it.index() as int)),
    {
        proof {
            let upto = all.take(it.index() + 1);
            assert(upto.drop_last() =~= all.take(it.index() as int));
            assert(upto.last() == sighting@);
        }
        advance(sighting, accounts, &mut profiles);
    }
    proof {
        assert(all.take(all.len() as int) =~= all);
        use_type_invariant(accounts);
        accounts.lemma_keyed();
        lemma_usernames_unique(accounts@, all);
    }
    profiles
}

} // verus!
