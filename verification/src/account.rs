//! Account records: one per line of the account database, and the index that
//! finds them by username.

use crate::text::{lemma_found_first, lines, lines_of};
use vstd::hash_map::StringHashMap;
use vstd::prelude::*;
use vstd::string::*;

verus! {

/// One entry of the account database.
#[derive(Clone, Debug, PartialEq, Eq)]
pub struct AccountRecord {
    pub uid: u32,
    pub username: String,
    pub home_dir: String,
    pub shell: String,
    /// The comment field as it stands in the database, not yet taken apart.
    pub gecos: String,
}

/// An account record as plain values.
pub struct AccountView {
    pub uid: u32,
    pub username: Seq<char>,
    pub home_dir: Seq<char>,
    pub shell: Seq<char>,
    pub gecos: Seq<char>,
}

impl View for AccountRecord {
    type V = AccountView;

    open spec fn view(&self) -> AccountView {
        AccountView {
            uid: self.uid,
            username: self.username@,
            home_dir: self.home_dir@,
            shell: self.shell@,
            gecos: self.gecos@,
        }
    }
}

/// The records of a list, as plain values and in the same order.
pub open spec fn account_views(records: Seq<AccountRecord>) -> Seq<AccountView> {
    records.map_values(|a: AccountRecord| a@)
}

/// The plain values of a record that may be missing.
pub open spec fn parsed_view(parsed: Option<AccountRecord>) -> Option<AccountView> {
    match parsed {
        Some(a) => Some(a@),
        None => None,
    }
}

/// What `parsswd::PwEnt::from_str` reads out of one line of the account database:
/// the record, or nothing where the line is not one. Of the seven fields of a
/// line the record keeps five; password and group id are left out.
pub uninterp spec fn passwd_entry(line: Seq<char>) -> Option<AccountView>;

/// Parses one line with `parsswd::PwEnt::from_str` and copies the fields that an
/// account record keeps. The parser is a function of the line alone; what it
/// returns goes by the name `passwd_entry`.
#[verifier::external_body]
fn parse_passwd_line(line: &str) -> (r: Option<AccountRecord>)
    ensures
        parsed_view(r) == passwd_entry(line@),
{
    match parsswd::PwEnt::from_str(line) {
        Some(e) => Some(
            AccountRecord {
                uid: e.uid,
                username: e.name.to_string(),
                home_dir: e.home_dir.to_string(),
                shell: e.shell.to_string(),
                gecos: e.gecos.to_string(),
            },
        ),
        None => None,
    }
}

/// Appends what a line was parsed into; a line that gave nothing is passed over.
pub fn push_parsed(entries: &mut Vec<AccountRecord>, parsed: Option<AccountRecord>)
    ensures
        account_views(final(entries)@) == match parsed {
            Some(a) => account_views(old(entries)@).push(a@),
            None => account_views(old(entries)@),
        },
{
    match parsed {
        Some(a) => {
            entries.push(a);
        },
        None => {},
    }
}

/// The records that the lines of an account database hold, in the order of the
/// lines. A line that does not parse contributes nothing.
pub open spec fn entries_of(lines: Seq<Seq<char>>) -> Seq<AccountView> {
    lines.filter_map(|l: Seq<char>| passwd_entry(l))
}

/// Reads the text of an account database line by line.
pub fn get_passwd_entries(passwd: &str) -> (r: Vec<AccountRecord>)
    ensures
        account_views(r@) == entries_of(lines_of(passwd@)),
{
    let all = lines(passwd);
    let mut entries: Vec<AccountRecord> = Vec::new();
    let mut i: usize = 0;
    while i < all.len()
        invariant
            i <= all@.len(),
            all@.len() == lines_of(passwd@).len(),
            forall|k: int| 0 <= k < all@.len() ==> (#[trigger] all@[k])@ == lines_of(passwd@)[k],
            account_views(entries@) == entries_of(lines_of(passwd@).take(i as int)),
        decreases all@.len() - i,
    {
        let parsed = parse_passwd_line(all[i]);
        proof {
            let upto = lines_of(passwd@).take(i + 1);
            assert(upto.drop_last() =~= lines_of(passwd@).take(i as int));
            assert(upto.last() == all@[i as int]@);
        }
        push_parsed(&mut entries, parsed);
        i = i + 1;
    }
    proof {
        assert(lines_of(passwd@).take(i as int) =~= lines_of(passwd@));
    }
    entries
}

/// The usernames of a list of records, in the order of the records.
pub open spec fn account_names(records: Seq<AccountView>) -> Seq<Seq<char>> {
    records.map_values(|a: AccountView| a.username)
}

/// The record that each username stands for: the first record of the list that
/// bears it. Later records under the same name are not in the map.
pub open spec fn index_map(records: Seq<AccountView>) -> Map<Seq<char>, AccountView> {
    Map::new(
        |u: Seq<char>| account_names(records).contains(u),
        |u: Seq<char>| records[account_names(records).index_of_first(u).unwrap()],
    )
}

/// The first occurrence of a username decides what the index holds for it.
pub proof fn lemma_first_occurrence_wins(records: Seq<AccountView>, i: int)
    requires
        0 <= i < records.len(),
        forall|j: int| 0 <= j < i ==> records[j].username != records[i].username,
    ensures
        index_map(records).contains_key(records[i].username),
        index_map(records)[records[i].username] == records[i],
{
    let names = account_names(records);
    let u = records[i].username;
    assert(names[i] == u);
    names.index_of_first_ensures(u);
    let k = names.index_of_first(u).unwrap();
    assert(names[k] == records[k].username);
    if k < i {
        assert(records[k].username != u);
    } else if i < k {
        assert(names[i] != u);
    }
}

/// Every record stands under its own username.
pub open spec fn keyed_by_username(accounts: Map<Seq<char>, AccountView>) -> bool {
    forall|u: Seq<char>| #[trigger] accounts.contains_key(u) ==> accounts[u].username == u
}

/// In the index of a list of records every record stands under its own username.
pub proof fn lemma_index_map_keyed(records: Seq<AccountView>)
    ensures
        keyed_by_username(index_map(records)),
{
    let names = account_names(records);
    assert forall|u: Seq<char>| #[trigger] index_map(records).contains_key(u) implies index_map(
        records,
    )[u].username == u by {
        names.index_of_first_ensures(u);
        let k = names.index_of_first(u).unwrap();
        assert(names[k] == records[k].username);
    }
}

/// A record whose username an earlier record bears already changes nothing in
/// the index.
pub proof fn lemma_duplicate_ignored(records: Seq<AccountView>, late: AccountView)
    requires
        account_names(records).contains(late.username),
    ensures
        index_map(records.push(late)) == index_map(records),
{
    let names = account_names(records);
    let more = account_names(records.push(late));
    assert(more =~= names.push(late.username));
    assert forall|u: Seq<char>| names.contains(u) == more.contains(u) by {
        if names.contains(u) {
            let j = choose|j: int| 0 <= j < names.len() && names[j] == u;
            assert(more[j] == u);
        }
        if more.contains(u) {
            let j = choose|j: int| 0 <= j < more.len() && more[j] == u;
            if j == names.len() {
                assert(u == late.username);
            } else {
                assert(names[j] == u);
            }
        }
    }
    assert forall|u: Seq<char>| names.contains(u) implies #[trigger] index_map(records.push(late))[u]
        == index_map(records)[u] by {
        names.index_of_first_ensures(u);
        let k = names.index_of_first(u).unwrap();
        assert forall|j: int| 0 <= j < k implies more[j] != u by {
            assert(more[j] == names[j]);
        }
        assert(more[k] == u);
        lemma_found_first(more, u, k);
        assert(records.push(late)[k] == records[k]);
    }
    assert(index_map(records.push(late)) =~= index_map(records));
}

/// A record whose username no earlier record bears is what the index holds
/// under that name from then on.
pub proof fn lemma_fresh_indexed(records: Seq<AccountView>, fresh: AccountView)
    requires
        !account_names(records).contains(fresh.username),
    ensures
        index_map(records.push(fresh)) == index_map(records).insert(fresh.username, fresh),
{
    let names = account_names(records);
    let more = account_names(records.push(fresh));
    assert(more =~= names.push(fresh.username));
    assert forall|u: Seq<char>| more.contains(u) == (names.contains(u) || u == fresh.username) by {
        if names.contains(u) {
            let j = choose|j: int| 0 <= j < names.len() && names[j] == u;
            assert(more[j] == u);
        }
        if u == fresh.username {
            assert(more[names.len() as int] == u);
        }
        if more.contains(u) {
            let j = choose|j: int| 0 <= j < more.len() && more[j] == u;
            if j < names.len() {
                assert(names[j] == u);
            }
        }
    }
    assert forall|u: Seq<char>| more.contains(u) implies #[trigger] index_map(records.push(fresh))[u]
        == index_map(records).insert(fresh.username, fresh)[u] by {
        if u == fresh.username {
            assert forall|j: int| 0 <= j < names.len() implies more[j] != u by {
                assert(more[j] == names[j]);
            }
            lemma_found_first(more, u, names.len() as int);
        } else {
            names.index_of_first_ensures(u);
            let k = names.index_of_first(u).unwrap();
            assert forall|j: int| 0 <= j < k implies more[j] != u by {
                assert(more[j] == names[j]);
            }
            assert(more[k] == u);
            lemma_found_first(more, u, k);
            assert(records.push(fresh)[k] == records[k]);
        }
    }
    assert(index_map(records.push(fresh)) =~= index_map(records).insert(fresh.username, fresh));
}

/// Account records to be looked up by username.
pub struct AccountIndex {
    by_name: StringHashMap<AccountRecord>,
}

impl View for AccountIndex {
    type V = Map<Seq<char>, AccountView>;

    closed spec fn view(&self) -> Map<Seq<char>, AccountView> {
        self.by_name@.map_values(|a: AccountRecord| a@)
    }
}

impl AccountIndex {
    /// Every record stands in the index under its own username.
    #[verifier::type_invariant]
    pub closed spec fn well_keyed(self) -> bool {
        keyed_by_username(self@)
    }

    /// Whatever a well-keyed index holds under a username is a record of that
    /// username.
    pub proof fn lemma_keyed(self)
        requires
            self.well_keyed(),
        ensures
            keyed_by_username(self@),
    {
    }

    /// Indexes the records. Where a username occurs more than once, the first
    /// record that bears it is the one that will be found.
    pub fn build(records: Vec<AccountRecord>) -> (r: AccountIndex)
        ensures
            r@ == index_map(account_views(records@)),
    {
        let mut by_name: StringHashMap<AccountRecord> = StringHashMap::new();
        let ghost all = account_views(records@);
        proof {
            assert(by_name@.map_values(|a: AccountRecord| a@) =~= index_map(all.take(0)));
        }
        for record in it: records
            invariant
                all == account_views(it.seq()),
                by_name@.map_values(|a: AccountRecord| a@) == index_map(
                    all.take(it.index() as int),
                ),
        {
            let ghost seen = all.take(it.index() as int);
            let ghost held = by_name@;
            proof {
                assert(all.take(it.index() + 1) =~= seen.push(record@));
                assert(held.contains_key(record@.username) == held.map_values(
                    |a: AccountRecord| a@,
                ).contains_key(record@.username));
            }
            if by_name.contains_key(record.username.as_str()) {
                proof {
                    lemma_duplicate_ignored(seen, record@);
                }
            } else {
                proof {
                    lemma_fresh_indexed(seen, record@);
                }
                let key = record.username.clone();
                by_name.insert(key, record);
                proof {
                    assert(by_name@.map_values(|a: AccountRecord| a@) =~= held.map_values(
                        |a: AccountRecord| a@,
                    ).insert(record@.username, record@));
                }
            }
        }
        proof {
            assert(all.take(all.len() as int) =~= all);
            lemma_index_map_keyed(all);
        }
        AccountIndex { by_name }
    }

    /// The record of `username`, if the index has one.
    pub fn find(&self, username: &str) -> (r: Option<&AccountRecord>)
        ensures
            match r {
                Some(a) => self@.contains_key(username@) && self@[username@] == a@,
                None => !self@.contains_key(username@),
            },
    {
        self.by_name.get(username)
    }
}

} // verus!
