//! What holds of the profiles whatever the stream of sightings is.

use crate::account::{keyed_by_username, AccountView};
use crate::aggregate::{
    advanced, aggregated, ingested, marker_wanted, usernames, SightingView,
};
use crate::optout::Probe;
use crate::person::{person_of, PersonView};
use crate::session::{active_of, descriptor, ActiveView, Terminal, WhereView};
use crate::text::{lemma_found_first, lemma_not_found};
use vstd::prelude::*;

verus! {

/// The usernames after a login has been taken in: those from before, and behind
/// them that of the login where it started a profile. A profile is started where
/// the user had none, has an account, and the marker was not found.
pub proof fn lemma_ingested_usernames(
    profiles: Seq<PersonView>,
    accounts: Map<Seq<char>, AccountView>,
    active: ActiveView,
    probe: Probe,
    terminal: Terminal,
)
    requires
        keyed_by_username(accounts),
    ensures
        usernames(ingested(profiles, accounts, active, probe, terminal)) == if !usernames(
            profiles,
        ).contains(active.user) && accounts.contains_key(active.user) && probe != Probe::Found {
            usernames(profiles).push(active.user)
        } else {
            usernames(profiles)
        },
{
    let names = usernames(profiles);
    let after = ingested(profiles, accounts, active, probe, terminal);
    names.index_of_first_ensures(active.user);
    if names.contains(active.user) {
        assert(usernames(after) =~= names);
    } else if accounts.contains_key(active.user) && probe != Probe::Found {
        assert(usernames(after) =~= names.push(active.user));
    }
}

/// Of a probe only this counts: whether the marker was found. A probe that
/// failed does what a probe does that found no marker.
pub proof fn lemma_failed_probe_is_no_marker(
    profiles: Seq<PersonView>,
    accounts: Map<Seq<char>, AccountView>,
    active: ActiveView,
    terminal: Terminal,
)
    ensures
        ingested(profiles, accounts, active, Probe::Failed, terminal) == ingested(
            profiles,
            accounts,
            active,
            Probe::Missing,
            terminal,
        ),
{
}

/// Where no marker is wanted for a login, the probe that comes with it changes
/// nothing.
pub proof fn lemma_unwanted_probe_is_not_read(
    profiles: Seq<PersonView>,
    accounts: Map<Seq<char>, AccountView>,
    active: ActiveView,
    one: Probe,
    other: Probe,
    terminal: Terminal,
)
    requires
        marker_wanted(profiles, accounts, active.user) is None,
    ensures
        ingested(profiles, accounts, active, one, terminal) == ingested(
            profiles,
            accounts,
            active,
            other,
            terminal,
        ),
{
}

/// A step of the stream is a step of the aggregation: the profiles after the
/// first `k + 1` sightings are those after the first `k`, advanced by sighting `k`.
pub proof fn lemma_aggregated_step(
    accounts: Map<Seq<char>, AccountView>,
    stream: Seq<SightingView>,
    k: int,
)
    requires
        0 <= k < stream.len(),
    ensures
        aggregated(accounts, stream.take(k + 1)) == advanced(
            aggregated(accounts, stream.take(k)),
            accounts,
            stream[k],
        ),
{
    assert(stream.take(k + 1).drop_last() =~= stream.take(k));
}

/// Taking in a login leaves no username twice where none was there twice before.
pub proof fn lemma_ingest_keeps_usernames_unique(
    profiles: Seq<PersonView>,
    accounts: Map<Seq<char>, AccountView>,
    active: ActiveView,
    probe: Probe,
    terminal: Terminal,
)
    requires
        keyed_by_username(accounts),
        usernames(profiles).no_duplicates(),
    ensures
        usernames(ingested(profiles, accounts, active, probe, terminal)).no_duplicates(),
{
    lemma_ingested_usernames(profiles, accounts, active, probe, terminal);
}

/// No two profiles of an aggregation bear the same username.
pub proof fn lemma_usernames_unique(
    accounts: Map<Seq<char>, AccountView>,
    stream: Seq<SightingView>,
)
    requires
        keyed_by_username(accounts),
    ensures
        usernames(aggregated(accounts, stream)).no_duplicates(),
    decreases stream.len(),
{
    if stream.len() > 0 {
        let before = aggregated(accounts, stream.drop_last());
        lemma_usernames_unique(accounts, stream.drop_last());
        match active_of(stream.last().record) {
            Some(active) => {
                lemma_ingest_keeps_usernames_unique(
                    before,
                    accounts,
                    active,
                    stream.last().probe,
                    stream.last().terminal,
                );
            },
            None => {},
        }
    }
}

/// Every profile of an aggregation bears the username of an account.
pub proof fn lemma_profiles_have_accounts(
    accounts: Map<Seq<char>, AccountView>,
    stream: Seq<SightingView>,
)
    requires
        keyed_by_username(accounts),
    ensures
        forall|u: Seq<char>| #[trigger]
            usernames(aggregated(accounts, stream)).contains(u) ==> accounts.contains_key(u),
    decreases stream.len(),
{
    if stream.len() > 0 {
        let before = aggregated(accounts, stream.drop_last());
        lemma_profiles_have_accounts(accounts, stream.drop_last());
        match active_of(stream.last().record) {
            Some(active) => {
                lemma_ingested_usernames(
                    before,
                    accounts,
                    active,
                    stream.last().probe,
                    stream.last().terminal,
                );
                let names = usernames(before);
                let after = usernames(aggregated(accounts, stream));
                assert forall|u: Seq<char>| #[trigger] after.contains(u) implies accounts.contains_key(
                    u,
                ) by {
                    let j = choose|j: int| 0 <= j < after.len() && after[j] == u;
                    if j < names.len() {
                        assert(names[j] == u);
                        assert(names.contains(u));
                    } else {
                        assert(u == active.user);
                    }
                }
            },
            None => {},
        }
    }
}

/// A login of a user who has no account changes nothing: no profile is started
/// and no profile gets a login.
pub proof fn lemma_login_without_account(
    accounts: Map<Seq<char>, AccountView>,
    stream: Seq<SightingView>,
    k: int,
)
    requires
        keyed_by_username(accounts),
        0 <= k < stream.len(),
        !accounts.contains_key(stream[k].record.user),
    ensures
        aggregated(accounts, stream.take(k + 1)) == aggregated(accounts, stream.take(k)),
{
    lemma_aggregated_step(accounts, stream, k);
    lemma_profiles_have_accounts(accounts, stream.take(k));
    let names = usernames(aggregated(accounts, stream.take(k)));
    names.index_of_first_ensures(stream[k].record.user);
}

/// A login whose marker was found changes nothing where its user has no profile
/// yet: no profile is started and no profile gets a login.
pub proof fn lemma_login_with_marker(
    accounts: Map<Seq<char>, AccountView>,
    stream: Seq<SightingView>,
    k: int,
)
    requires
        0 <= k < stream.len(),
        stream[k].probe == Probe::Found,
        !usernames(aggregated(accounts, stream.take(k))).contains(stream[k].record.user),
    ensures
        aggregated(accounts, stream.take(k + 1)) == aggregated(accounts, stream.take(k)),
{
    lemma_aggregated_step(accounts, stream, k);
    let names = usernames(aggregated(accounts, stream.take(k)));
    names.index_of_first_ensures(stream[k].record.user);
}

/// Sighting `e` is a live login of `user`.
pub open spec fn is_login_of(e: SightingView, user: Seq<char>) -> bool {
    active_of(e.record) matches Some(a) && a.user == user
}

/// A user whose marker was found at every one of their logins has no profile,
/// whatever the logins of other users between them.
pub proof fn lemma_opted_out_has_no_profile(
    accounts: Map<Seq<char>, AccountView>,
    stream: Seq<SightingView>,
    user: Seq<char>,
)
    requires
        keyed_by_username(accounts),
        forall|k: int|
            0 <= k < stream.len() && is_login_of(#[trigger] stream[k], user) ==> stream[k].probe
                == Probe::Found,
    ensures
        !usernames(aggregated(accounts, stream)).contains(user),
    decreases stream.len(),
{
    if stream.len() > 0 {
        let earlier = stream.drop_last();
        let before = aggregated(accounts, earlier);
        assert forall|k: int|
            0 <= k < earlier.len() && is_login_of(#[trigger] earlier[k], user) implies earlier[k].probe
            == Probe::Found by {
            assert(earlier[k] == stream[k]);
        }
        lemma_opted_out_has_no_profile(accounts, earlier, user);
        let e = stream.last();
        assert(e == stream[stream.len() - 1]);
        match active_of(e.record) {
            Some(active) => {
                lemma_ingested_usernames(before, accounts, active, e.probe, e.terminal);
                let names = usernames(before);
                let after = usernames(aggregated(accounts, stream));
                if after.contains(user) {
                    let j = choose|j: int| 0 <= j < after.len() && after[j] == user;
                    if j < names.len() {
                        assert(names[j] == user);
                    }
                }
            },
            None => {},
        }
    }
}

/// `later` is the profile `earlier` with logins added behind those it had, and
/// nothing else changed.
pub open spec fn extends(earlier: PersonView, later: PersonView) -> bool {
    &&& later == PersonView { sessions: later.sessions, ..earlier }
    &&& earlier.sessions.is_prefix_of(later.sessions)
}

/// Every profile of `earlier` stands at the same place in `later`, with the
/// logins it had still in front and in their order. Profiles are neither
/// removed nor moved; new ones stand behind the old.
pub open spec fn grown_from(earlier: Seq<PersonView>, later: Seq<PersonView>) -> bool {
    &&& earlier.len() <= later.len()
    &&& forall|i: int| 0 <= i < earlier.len() ==> extends(earlier[i], #[trigger] later[i])
}

/// Taking in a login only ever adds: a login behind those of one profile, or a
/// profile behind the others.
pub proof fn lemma_ingest_appends(
    profiles: Seq<PersonView>,
    accounts: Map<Seq<char>, AccountView>,
    active: ActiveView,
    probe: Probe,
    terminal: Terminal,
)
    ensures
        grown_from(profiles, ingested(profiles, accounts, active, probe, terminal)),
{
    let after = ingested(profiles, accounts, active, probe, terminal);
    usernames(profiles).index_of_first_ensures(active.user);
    assert forall|i: int| 0 <= i < profiles.len() implies extends(
        profiles[i],
        #[trigger] after[i],
    ) by {
        assert(profiles[i].sessions.is_prefix_of(after[i].sessions));
    }
}

/// What the profiles were after the first `k` sightings, they still are after
/// all of them, but for logins and profiles that were added behind.
pub proof fn lemma_append_only(
    accounts: Map<Seq<char>, AccountView>,
    stream: Seq<SightingView>,
    k: int,
)
    requires
        0 <= k <= stream.len(),
    ensures
        grown_from(aggregated(accounts, stream.take(k)), aggregated(accounts, stream)),
    decreases stream.len(),
{
    let early = aggregated(accounts, stream.take(k));
    let all = aggregated(accounts, stream);
    if k == stream.len() {
        assert(stream.take(k) =~= stream);
        assert forall|i: int| 0 <= i < early.len() implies extends(early[i], #[trigger] all[i]) by {
            assert(early[i].sessions.is_prefix_of(all[i].sessions));
        }
    } else {
        let shorter = stream.drop_last();
        let before = aggregated(accounts, shorter);
        assert(shorter.take(k) =~= stream.take(k));
        lemma_append_only(accounts, shorter, k);
        match active_of(stream.last().record) {
            Some(active) => {
                lemma_ingest_appends(
                    before,
                    accounts,
                    active,
                    stream.last().probe,
                    stream.last().terminal,
                );
            },
            None => {
                assert(all == before);
            },
        }
        assert forall|i: int| 0 <= i < early.len() implies extends(early[i], #[trigger] all[i]) by {
            assert(extends(early[i], before[i]));
            assert(extends(before[i], all[i]));
            assert(early[i].sessions.is_prefix_of(all[i].sessions));
        }
    }
}

/// The live logins of `user` in a stream, in the order of the stream.
pub open spec fn logins_of(stream: Seq<SightingView>, user: Seq<char>) -> Seq<SightingView> {
    stream.filter(|e: SightingView| is_login_of(e, user))
}

/// The logins of one user that are taken in: all of them from the first whose
/// marker was not found. Those before it were dropped; those after it find a
/// profile, and their probes are not looked at.
pub open spec fn admitted(logins: Seq<SightingView>) -> Seq<SightingView>
    decreases logins.len(),
{
    if logins.len() > 0 && logins[0].probe == Probe::Found {
        admitted(logins.drop_first())
    } else {
        logins
    }
}

/// The descriptors of a list of live logins, in the same order.
pub open spec fn descriptors(logins: Seq<SightingView>) -> Seq<WhereView> {
    logins.map_values(|e: SightingView| descriptor(active_of(e.record).unwrap(), e.terminal))
}

/// One more login of a user is taken in if an earlier one was, or if its own
/// marker was not found.
pub proof fn lemma_admitted_push(logins: Seq<SightingView>, e: SightingView)
    ensures
        admitted(logins.push(e)) == if admitted(logins).len() > 0 {
            admitted(logins).push(e)
        } else if e.probe == Probe::Found {
            Seq::empty()
        } else {
            seq![e]
        },
    decreases logins.len(),
{
    let more = logins.push(e);
    if logins.len() == 0 {
        assert(more =~= seq![e]);
        assert(more.drop_first() =~= Seq::<SightingView>::empty());
        assert(admitted(more.drop_first()) == more.drop_first());
    } else if logins[0].probe == Probe::Found {
        assert(more[0] == logins[0]);
        assert(more.drop_first() =~= logins.drop_first().push(e));
        lemma_admitted_push(logins.drop_first(), e);
    } else {
        assert(more[0] == logins[0]);
    }
}

/// The profile of a user holds exactly the logins of that user that were taken
/// in, in the order in which the stream gave them, and is otherwise as the
/// account started it. A user has a profile if and only if they have an account
/// and one of their logins was taken in.
pub proof fn lemma_sessions_in_stream_order(
    accounts: Map<Seq<char>, AccountView>,
    stream: Seq<SightingView>,
    user: Seq<char>,
)
    requires
        keyed_by_username(accounts),
    ensures
        match usernames(aggregated(accounts, stream)).index_of_first(user) {
            Some(i) => {
                &&& accounts.contains_key(user)
                &&& admitted(logins_of(stream, user)).len() > 0
                &&& aggregated(accounts, stream)[i] == PersonView {
                    sessions: descriptors(admitted(logins_of(stream, user))),
                    ..person_of(accounts[user])
                }
            },
            None => !accounts.contains_key(user) || admitted(logins_of(stream, user)).len() == 0,
        },
    decreases stream.len(),
{
    reveal(Seq::filter);
    let all = aggregated(accounts, stream);
    let names = usernames(all);
    if stream.len() == 0 {
        lemma_not_found(names, user);
    } else {
        let earlier = stream.drop_last();
        let e = stream.last();
        let before = aggregated(accounts, earlier);
        let old_names = usernames(before);
        let old_kept = admitted(logins_of(earlier, user));
        lemma_sessions_in_stream_order(accounts, earlier, user);
        old_names.index_of_first_ensures(user);
        match active_of(e.record) {
            None => {},
            Some(active) => {
                lemma_ingested_usernames(before, accounts, active, e.probe, e.terminal);
                old_names.index_of_first_ensures(active.user);
                if active.user == user {
                    lemma_admitted_push(logins_of(earlier, user), e);
                    match old_names.index_of_first(user) {
                        Some(i) => {
                            assert(descriptors(old_kept.push(e)) =~= descriptors(old_kept).push(
                                descriptor(active, e.terminal),
                            ));
                        },
                        None => {
                            if accounts.contains_key(user) && e.probe != Probe::Found {
                                lemma_found_first(names, user, old_names.len() as int);
                                assert(descriptors(seq![e]) =~= seq![
                                    descriptor(active, e.terminal),
                                ]);
                                assert(Seq::<WhereView>::empty().push(
                                    descriptor(active, e.terminal),
                                ) =~= seq![descriptor(active, e.terminal)]);
                            }
                        },
                    }
                } else {
                    match old_names.index_of_first(user) {
                        Some(i) => {
                            assert(names[i] == old_names[i]);
                            assert forall|j: int| 0 <= j < i implies names[j] != user by {
                                assert(names[j] == old_names[j]);
                            }
                            lemma_found_first(names, user, i);
                            assert(all[i] == before[i]);
                        },
                        None => {
                            assert forall|j: int| 0 <= j < names.len() implies names[j] != user by {
                                if j < old_names.len() {
                                    assert(names[j] == old_names[j]);
                                }
                            }
                            lemma_not_found(names, user);
                        },
                    }
                }
            },
        }
    }
}

} // verus!
