//! The records that the fetcher and the server store and show.

use vstd::prelude::*;
use crate::types::{Key, Timespec, Url, NSEC_PER_SEC};

verus! {

/// A feed as stored.
#[derive(Debug)]
pub struct Feed {
    pub id: i32,
    pub key: Key,
    pub url: Url,
    pub title: Option<String>,
    pub description: Option<String>,
    pub language: Option<String>,
    pub logo: Option<Url>,
    pub copyright: Option<String>,
    pub interval: Option<i32>,
    pub augmented: Option<Timespec>,
}

/// Two records of the same feed that agree on everything but the fetcher's
/// schedule (`interval`) and mark (`augmented`).
pub open spec fn same_feed_but_schedule(a: Feed, b: Feed) -> bool {
    &&& a.id == b.id
    &&& a.key == b.key
    &&& a.url == b.url
    &&& a.title == b.title
    &&& a.description == b.description
    &&& a.language == b.language
    &&& a.logo == b.logo
    &&& a.copyright == b.copyright
}

/// What a user is shown of a feed.
#[derive(Debug)]
pub struct UserFeed {
    pub key: Key,
    pub url: Url,
    pub title: Option<String>,
    pub description: Option<String>,
    pub language: Option<String>,
    pub logo: Option<Url>,
    pub copyright: Option<String>,
}

/// The user's view of a feed: its key, URL and descriptive fields, without
/// the id and the fetcher's schedule.
pub open spec fn user_feed_of(f: Feed) -> UserFeed {
    UserFeed {
        key: f.key,
        url: f.url,
        title: f.title,
        description: f.description,
        language: f.language,
        logo: f.logo,
        copyright: f.copyright,
    }
}

impl From<Feed> for UserFeed {
    fn from(f: Feed) -> (r: UserFeed) {
        UserFeed {
            key: f.key,
            url: f.url,
            title: f.title,
            description: f.description,
            language: f.language,
            logo: f.logo,
            copyright: f.copyright,
        }
    }
}

impl vstd::std_specs::convert::FromSpecImpl<Feed> for UserFeed {
    open spec fn obeys_from_spec() -> bool {
        true
    }

    open spec fn from_spec(f: Feed) -> UserFeed {
        user_feed_of(f)
    }
}

/// A feed to be stored.
#[derive(Debug)]
pub struct NewFeed {
    pub key: Key,
    pub url: Url,
}

/// An entry as stored.
#[derive(Debug)]
pub struct Entry {
    pub id: i64,
    pub key: Key,
    pub feed_id: i32,
    pub url: Option<Url>,
    pub title: Option<String>,
    pub author: Option<String>,
    pub description: Option<String>,
    pub content: Option<String>,
    pub published: Option<Timespec>,
}

/// What a user is shown of an entry.
#[derive(Debug)]
pub struct UserEntry {
    pub key: Key,
    pub url: Option<Url>,
    pub title: Option<String>,
    pub author: Option<String>,
    pub description: Option<String>,
    pub content: Option<String>,
    pub published: Option<u64>,
}

/// The publication time shown to a user: whole seconds, the nanoseconds'
/// whole seconds added, as unsigned 64-bit arithmetic computes them.
pub open spec fn shown_seconds(t: Timespec) -> u64 {
    (t.sec as u64).wrapping_add(truncated_seconds(t.nsec) as u64)
}

/// Nanoseconds divided by a second's worth, rounded toward zero as integer
/// division does.
pub open spec fn truncated_seconds(nsec: i32) -> int {
    let n = nsec as int;
    let d = NSEC_PER_SEC as int;
    if n >= 0 {
        n / d
    } else {
        -((-n) / d)
    }
}

/// The user's view of an entry.
pub open spec fn user_entry_of(e: Entry) -> UserEntry {
    UserEntry {
        key: e.key,
        url: e.url,
        title: e.title,
        author: e.author,
        description: e.description,
        content: e.content,
        published: match e.published {
            Some(t) => Some(shown_seconds(t)),
            None => None,
        },
    }
}

fn seconds_of(t: Timespec) -> (r: u64)
    ensures
        r == shown_seconds(t),
{
    let nsec: i64 = t.nsec as i64;
    let whole: i64 = if nsec >= 0 {
        nsec / (NSEC_PER_SEC as i64)
    } else {
        -((-nsec) / (NSEC_PER_SEC as i64))
    };
    #[verifier::truncate]
    let sec: u64 = t.sec as u64;
    #[verifier::truncate]
    let extra: u64 = whole as u64;
    sec.wrapping_add(extra)
}

impl From<Entry> for UserEntry {
    fn from(e: Entry) -> (r: UserEntry) {
        let published = match e.published {
            Some(t) => Some(seconds_of(t)),
            None => None,
        };
        UserEntry {
            key: e.key,
            url: e.url,
            title: e.title,
            author: e.author,
            description: e.description,
            content: e.content,
            published,
        }
    }
}

impl vstd::std_specs::convert::FromSpecImpl<Entry> for UserEntry {
    open spec fn obeys_from_spec() -> bool {
        true
    }

    open spec fn from_spec(e: Entry) -> UserEntry {
        user_entry_of(e)
    }
}

/// A registered user: a number and the UUID kept in the user's cookie.
#[derive(Debug, Clone, Copy, PartialEq, Eq, Structural)]
pub struct User {
    pub id: i32,
    pub uid: u128,
}

/// A user to be stored.
#[derive(Debug, Clone, Copy, PartialEq, Eq, Structural)]
pub struct NewUser {
    pub uid: u128,
}

/// A user's subscription to a feed.
#[derive(Debug, Clone, Copy, PartialEq, Eq, Structural)]
pub struct Subscription {
    pub user_id: i32,
    pub feed_id: i32,
}

/// A user is shown a feed field by field as stored: its key, URL, title,
/// description, language, logo and copyright, each unchanged.
pub proof fn lemma_user_feed_shows_stored_fields(f: Feed)
    ensures
        ({
            let u = <UserFeed as vstd::std_specs::convert::FromSpec<Feed>>::from_spec(f);
            &&& u.key == f.key
            &&& u.url == f.url
            &&& u.title == f.title
            &&& u.description == f.description
            &&& u.language == f.language
            &&& u.logo == f.logo
            &&& u.copyright == f.copyright
        }),
{
}

/// A user is shown an entry field by field as stored, and its publication
/// time in whole seconds: for a point in time with nanoseconds within a
/// second, its seconds.
pub proof fn lemma_user_entry_shows_stored_fields(e: Entry)
    ensures
        ({
            let u = <UserEntry as vstd::std_specs::convert::FromSpec<Entry>>::from_spec(e);
            &&& u.key == e.key
            &&& u.url == e.url
            &&& u.title == e.title
            &&& u.author == e.author
            &&& u.description == e.description
            &&& u.content == e.content
            &&& (u.published is None <==> e.published is None)
            &&& match e.published {
                Some(t) => 0 <= t.sec && 0 <= t.nsec < NSEC_PER_SEC ==> u.published == Some(t.sec as u64),
                None => true,
            }
        }),
{
    if let Some(t) = e.published {
        if 0 <= t.sec && 0 <= t.nsec < NSEC_PER_SEC {
            assert(truncated_seconds(t.nsec) == 0);
            assert(shown_seconds(t) == t.sec as u64);
        }
    }
}

} // verus!
