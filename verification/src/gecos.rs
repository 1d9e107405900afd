//! The comment field of an account record and its four components.

use crate::text::{split, strip_leading, trim_leading, Fields};
use vstd::prelude::*;
use vstd::string::*;

verus! {

/// The text of an optional component, or the empty text where it is missing.
pub open spec fn text_or_empty(s: Option<Seq<char>>) -> Seq<char> {
    match s {
        Some(t) => t,
        None => Seq::empty(),
    }
}

/// The characters of an optional string slice.
pub open spec fn optional_text(s: Option<&str>) -> Option<Seq<char>> {
    match s {
        Some(t) => Some(t@),
        None => None,
    }
}

/// Owned copy of an optional component; a missing one becomes the empty string.
pub fn string_or_empty(s: Option<&str>) -> (r: String)
    ensures
        r@ == text_or_empty(optional_text(s)),
{
    match s {
        Some(t) => String::from_str(t),
        None => String::new(),
    }
}

/// The `k`-th of a list of pieces, if there are that many.
pub open spec fn part(parts: Seq<Seq<char>>, k: int) -> Option<Seq<char>> {
    if 0 <= k < parts.len() {
        Some(parts[k])
    } else {
        None
    }
}

/// The pieces of a comment field: leading asterisks are dropped, and what is
/// left is cut at every comma.
pub open spec fn gecos_parts(gecos: Seq<char>) -> Seq<Seq<char>> {
    split(strip_leading(gecos, '*'), ',')
}

/// The four components of a comment field.
#[derive(Clone, Debug, PartialEq, Eq)]
pub struct Gecos {
    pub realname: String,
    pub office: String,
    pub office_phone: String,
    pub home_phone: String,
}

/// The four components as plain values.
pub struct GecosView {
    pub realname: Seq<char>,
    pub office: Seq<char>,
    pub office_phone: Seq<char>,
    pub home_phone: Seq<char>,
}

impl View for Gecos {
    type V = GecosView;

    open spec fn view(&self) -> GecosView {
        GecosView {
            realname: self.realname@,
            office: self.office@,
            office_phone: self.office_phone@,
            home_phone: self.home_phone@,
        }
    }
}

/// What a comment field says: real name, office, office phone and home phone are
/// its first four pieces, in that order. A piece that the field does not have is
/// empty, and pieces beyond the fourth are left aside.
pub open spec fn gecos_of(gecos: Seq<char>) -> GecosView {
    let parts = gecos_parts(gecos);
    GecosView {
        realname: text_or_empty(part(parts, 0)),
        office: text_or_empty(part(parts, 1)),
        office_phone: text_or_empty(part(parts, 2)),
        home_phone: text_or_empty(part(parts, 3)),
    }
}

/// Takes a comment field apart.
pub fn parse_gecos(gecos: &str) -> (r: Gecos)
    ensures
        r@ == gecos_of(gecos@),
{
    let trimmed = trim_leading(gecos, '*');
    let mut parts = Fields::new(trimmed, ',');
    let realname = parts.next_field();
    let office = parts.next_field();
    let office_phone = parts.next_field();
    let home_phone = parts.next_field();
    Gecos {
        realname: string_or_empty(realname),
        office: string_or_empty(office),
        office_phone: string_or_empty(office_phone),
        home_phone: string_or_empty(home_phone),
    }
}

} // verus!
