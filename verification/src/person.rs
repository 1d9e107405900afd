//! The profile of a user: what the account says of them, and where they are
//! logged in.

use crate::account::{AccountRecord, AccountView};
use crate::gecos::{gecos_of, parse_gecos};
use crate::session::{where_views, Timestamp, Where, WhereView};
use vstd::prelude::*;
use vstd::string::*;

verus! {

/// Everything known of one user.
#[derive(Clone, Debug, PartialEq, Eq)]
pub struct Person {
    pub uid: u32,
    pub home_dir: String,
    pub home_phone: String,
    pub username: String,
    pub office: String,
    pub office_phone: String,
    pub realname: String,
    pub shell: String,
    /// When the user last read mail; `None` for never.
    pub mail_read: Option<Timestamp>,
    /// When mail last came for the user; `None` for never.
    pub mail_recv: Option<Timestamp>,
    /// The logins of the user, in the order in which the session store gave them.
    pub sessions: Vec<Where>,
}

/// A profile as plain values.
pub struct PersonView {
    pub uid: u32,
    pub home_dir: Seq<char>,
    pub home_phone: Seq<char>,
    pub username: Seq<char>,
    pub office: Seq<char>,
    pub office_phone: Seq<char>,
    pub realname: Seq<char>,
    pub shell: Seq<char>,
    pub mail_read: Option<Timestamp>,
    pub mail_recv: Option<Timestamp>,
    pub sessions: Seq<WhereView>,
}

impl View for Person {
    type V = PersonView;

    open spec fn view(&self) -> PersonView {
        PersonView {
            uid: self.uid,
            home_dir: self.home_dir@,
            home_phone: self.home_phone@,
            username: self.username@,
            office: self.office@,
            office_phone: self.office_phone@,
            realname: self.realname@,
            shell: self.shell@,
            mail_read: self.mail_read,
            mail_recv: self.mail_recv,
            sessions: where_views(self.sessions@),
        }
    }
}

impl PersonView {
    /// The same profile with one more login at the end of its list.
    pub open spec fn with_session(self, w: WhereView) -> PersonView {
        PersonView { sessions: self.sessions.push(w), ..self }
    }
}

/// The profiles of a list, as plain values and in the same order.
pub open spec fn person_views(list: Seq<Person>) -> Seq<PersonView> {
    list.map_values(|p: Person| p@)
}

/// The profile that an account starts out with: identity, home and shell are
/// those of the account, the four personal details come out of its comment
/// field, no mail was ever seen, and no login is listed yet.
pub open spec fn person_of(account: AccountView) -> PersonView {
    let g = gecos_of(account.gecos);
    PersonView {
        uid: account.uid,
        home_dir: account.home_dir,
        home_phone: g.home_phone,
        username: account.username,
        office: g.office,
        office_phone: g.office_phone,
        realname: g.realname,
        shell: account.shell,
        mail_read: None,
        mail_recv: None,
        sessions: Seq::empty(),
    }
}

/// Starts the profile of an account.
pub fn pw_ent_to_person(account: &AccountRecord) -> (r: Person)
    ensures
        r@ == person_of(account@),
{
    let g = parse_gecos(account.gecos.as_str());
    let r = Person {
        uid: account.uid,
        home_dir: account.home_dir.clone(),
        home_phone: g.home_phone,
        username: account.username.clone(),
        office: g.office,
        office_phone: g.office_phone,
        realname: g.realname,
        shell: account.shell.clone(),
        mail_read: None,
        mail_recv: None,
        sessions: Vec::new(),
    };
    proof {
        assert(where_views(r.sessions@) =~= Seq::<WhereView>::empty());
    }
    r
}

} // verus!
