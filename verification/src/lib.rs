//! Who is logged in, and who are they: account records and live login
//! sessions are matched by username into one profile per user.
//!
//! The library reads no file. Its caller hands it the text of the account
//! database and the records of the session store, looks at the file system
//! where the library names a path, and reports what it saw:
//!
//! - `account` turns the text of the account database into records and indexes
//!   them by username;
//! - `session` tells live logins from the other records of the session store
//!   and builds the descriptor of a login;
//! - `gecos` takes the comment field of an account apart, and `person` starts a
//!   profile from an account;
//! - `optout` names the marker by which a user opts out and judges a probe of it;
//! - `aggregate` takes logins into the profiles, one by one or as a stream;
//! - `laws` states what holds of the profiles whatever the stream;
//! - `text` holds the searching and splitting of text that the others rest on.

pub mod account;
pub mod aggregate;
pub mod gecos;
pub mod laws;
pub mod optout;
pub mod person;
pub mod session;
pub mod text;
