//! What the web server decides for each request, given what the database
//! answered.

use vstd::prelude::*;
use crate::ipc::{feed_id_datagram, feed_id_message};
use crate::models::{user_entry_of, user_feed_of, Entry, Feed, NewFeed, NewUser, Subscription, User, UserEntry, UserFeed};
use crate::types::{hyphenated, parse_uuid, url_parse_result, uuid_parse_result, uuid_text, Key, Url};

verus! {

/// A failed database request.
#[derive(Debug, Clone, Copy, PartialEq, Eq, Structural)]
pub struct DbError;

/// An HTTP status and its reason phrase.
#[derive(Debug, Clone, Copy)]
pub struct Reply {
    pub code: u16,
    pub reason: &'static str,
}

/// `r` has the given status and reason.
pub open spec fn replies(r: Reply, code: u16, reason: &str) -> bool {
    r.code == code && r.reason@ == reason@
}

/// The plain success answer.
pub fn ok_reply() -> (r: Reply)
    ensures
        replies(r, 200, "OK"),
{
    Reply { code: 200, reason: "OK" }
}

/// The body of a request to add a feed.
#[derive(Debug)]
pub struct PostUrl {
    pub url: String,
}

/// The feed to add for a request: its URL and the key made of it; a text that
/// is not a URL is answered with 400.
pub fn feed_to_add(request: &PostUrl) -> (r: Result<NewFeed, Reply>)
    ensures
        match url_parse_result(request.url@) {
            None => r matches Err(e) && replies(e, 400, "Bad url"),
            Some(u) => r matches Ok(f) && f.url@ == u && f.key@ == u,
        },
{
    match Url::parse(request.url.as_str()) {
        None => Err(Reply { code: 400, reason: "Bad url" }),
        Some(url) => {
            let key = Key::from_url(&url);
            Ok(NewFeed { key, url })
        },
    }
}

/// The answer after looking up how many feeds have the new feed's key: none
/// where it is unknown and is to be inserted, success where it is known, 500
/// where the lookup failed.
pub fn reply_to_feed_lookup(found: Result<usize, DbError>) -> (r: Option<Reply>)
    ensures
        match found {
            Err(_) => r matches Some(e) && replies(e, 500, "DB transaction failed"),
            Ok(n) => if n != 0 {
                r matches Some(e) && replies(e, 200, "OK")
            } else {
                r is None
            },
        },
{
    match found {
        Err(_) => Some(Reply { code: 500, reason: "DB transaction failed" }),
        Ok(n) => if n != 0 {
            Some(ok_reply())
        } else {
            None
        },
    }
}

/// After inserting a new feed: the datagram that announces it to the fetcher
/// and the requesting user's subscription to it; 500 where the insertion
/// failed.
pub fn subscribe_to_new_feed(inserted: Result<i32, DbError>, user: &User) -> (r: Result<(Vec<u8>, Subscription), Reply>)
    ensures
        match inserted {
            Err(_) => r matches Err(e) && replies(e, 500, "DB transaction failed"),
            Ok(id) => r matches Ok(p) && p.0@ == feed_id_datagram(id) && p.1 == (Subscription {
                user_id: user.id,
                feed_id: id,
            }),
        },
{
    match inserted {
        Err(_) => Err(Reply { code: 500, reason: "DB transaction failed" }),
        Ok(id) => Ok((feed_id_message(id), Subscription { user_id: user.id, feed_id: id })),
    }
}

/// The answer of the simpler handler that only inserts the feed.
pub fn reply_to_feed_insert(inserted: Result<i32, DbError>) -> (r: Reply)
    ensures
        inserted is Ok ==> replies(r, 200, "Successfully added and subscribed"),
        inserted is Err ==> replies(r, 500, "Addition failed"),
{
    match inserted {
        Ok(_) => Reply { code: 200, reason: "Successfully added and subscribed" },
        Err(_) => Reply { code: 500, reason: "Addition failed" },
    }
}

/// The text by which a page names its user: the hyphenated UUID.
pub fn uid_text(user: &User) -> (r: String)
    ensures
        r@ == hyphenated(user.uid),
{
    uuid_text(user.uid)
}

/// What a feed's page shows.
#[derive(Debug)]
pub struct FeedPage {
    pub uid: String,
    pub feed: UserFeed,
    pub entries: Vec<UserEntry>,
}

fn user_entries(entries: Vec<Entry>) -> (r: Vec<UserEntry>)
    ensures
        r@ == entries@.map_values(|e: Entry| user_entry_of(e)),
{
    let ghost all = entries@;
    let mut out: Vec<UserEntry> = Vec::new();
    for e in it: entries.into_iter()
        invariant
            it.seq() == all,
            out@ == all.take(it.index() as int).map_values(|e: Entry| user_entry_of(e)),
    {
        out.push(UserEntry::from(e));
        assert(out@ =~= all.take(it.index() + 1).map_values(|e: Entry| user_entry_of(e)));
    }
    assert(all.take(all.len() as int) =~= all);
    out
}

/// The page of a feed: its user's id, the feed and its entries as shown.
pub fn feed_page(user: &User, feed: Feed, entries: Vec<Entry>) -> (r: FeedPage)
    ensures
        r.uid@ == hyphenated(user.uid),
        r.feed == user_feed_of(feed),
        r.entries@ == entries@.map_values(|e: Entry| user_entry_of(e)),
{
    FeedPage { uid: uid_text(user), feed: UserFeed::from(feed), entries: user_entries(entries) }
}

/// What an entry's page shows.
#[derive(Debug)]
pub struct EntryPage {
    pub uid: String,
    pub feed: UserFeed,
    pub entry: UserEntry,
}

/// The page of an entry: its user's id, its feed and the entry as shown.
pub fn entry_page(user: &User, feed: Feed, entry: Entry) -> (r: EntryPage)
    ensures
        r.uid@ == hyphenated(user.uid),
        r.feed == user_feed_of(feed),
        r.entry == user_entry_of(entry),
{
    EntryPage { uid: uid_text(user), feed: UserFeed::from(feed), entry: UserEntry::from(entry) }
}

/// The page of a feed once the feed and then its entries were looked up;
/// `None`, the error page, where either lookup failed.
pub fn feed_page_or_error(user: &User, feed: Result<Feed, DbError>, entries: Result<Vec<Entry>, DbError>) -> (r: Option<FeedPage>)
    ensures
        match (feed, entries) {
            (Ok(f), Ok(es)) => r matches Some(p) && p.uid@ == hyphenated(user.uid) && p.feed == user_feed_of(f)
                && p.entries@ == es@.map_values(|e: Entry| user_entry_of(e)),
            _ => r is None,
        },
{
    match (feed, entries) {
        (Ok(f), Ok(es)) => Some(feed_page(user, f, es)),
        _ => None,
    }
}

/// The page of an entry once the entry and then its feed were looked up;
/// `None`, the error page, where either lookup failed.
pub fn entry_page_or_error(user: &User, entry: Result<Entry, DbError>, feed: Result<Feed, DbError>) -> (r: Option<EntryPage>)
    ensures
        match (entry, feed) {
            (Ok(e), Ok(f)) => r matches Some(p) && p.uid@ == hyphenated(user.uid) && p.feed == user_feed_of(f)
                && p.entry == user_entry_of(e),
            _ => r is None,
        },
{
    match (entry, feed) {
        (Ok(e), Ok(f)) => Some(entry_page(user, f, e)),
        _ => None,
    }
}

/// The feed ids of a user's subscriptions, in order; their feeds are loaded
/// one after the other.
pub fn subscribed_feed_ids(subscriptions: &Vec<Subscription>) -> (r: Vec<i32>)
    ensures
        r@ == subscriptions@.map_values(|s: Subscription| s.feed_id),
{
    let mut ids: Vec<i32> = Vec::new();
    let n = subscriptions.len();
    let mut i: usize = 0;
    while i < n
        invariant
            n == subscriptions@.len(),
            0 <= i <= n,
            ids@ == subscriptions@.take(i as int).map_values(|s: Subscription| s.feed_id),
        decreases n - i,
    {
        ids.push(subscriptions[i].feed_id);
        i = i + 1;
        assert(ids@ =~= subscriptions@.take(i as int).map_values(|s: Subscription| s.feed_id));
    }
    assert(subscriptions@.take(n as int) =~= subscriptions@);
    ids
}

/// Adds the feeds loaded for one subscription to the feeds shown so far.
pub fn extend_user_feeds(feeds: &mut Vec<UserFeed>, part: Vec<Feed>)
    ensures
        final(feeds)@ == old(feeds)@ + part@.map_values(|f: Feed| user_feed_of(f)),
{
    let ghost start = feeds@;
    let ghost all = part@;
    for f in it: part.into_iter()
        invariant
            it.seq() == all,
            feeds@ == start + all.take(it.index() as int).map_values(|f: Feed| user_feed_of(f)),
    {
        feeds.push(UserFeed::from(f));
        assert(feeds@ =~= start + all.take(it.index() + 1).map_values(|f: Feed| user_feed_of(f)));
    }
    assert(all.take(all.len() as int) =~= all);
}

/// What the start page and the management page show: the user's id and the
/// feeds the user subscribed to.
#[derive(Debug)]
pub struct FeedsPage {
    pub uid: String,
    pub feeds: Vec<UserFeed>,
}

/// The start or management page of a user with the feeds collected.
pub fn feeds_page(user: &User, feeds: Vec<UserFeed>) -> (r: FeedsPage)
    ensures
        r.uid@ == hyphenated(user.uid),
        r.feeds == feeds,
{
    FeedsPage { uid: uid_text(user), feeds }
}

/// The message of an error page.
#[derive(Debug)]
pub struct ErrorContext {
    pub msg: String,
}

impl ErrorContext {
    /// An error page with the given message.
    pub fn new(e: &str) -> (r: ErrorContext)
        ensures
            r.msg@ == e@,
    {
        ErrorContext { msg: e.to_owned() }
    }
}

/// The feeds of a user, as the subscription list answers them.
#[derive(Debug)]
pub struct Subs {
    pub subs: Vec<UserFeed>,
}

/// The answer to a request for the subscription list: the feeds collected,
/// or 500 and an empty list where a lookup failed.
pub fn subs_reply(collected: Result<Vec<UserFeed>, DbError>) -> (r: (Reply, Subs))
    ensures
        match collected {
            Ok(feeds) => replies(r.0, 200, "OK") && r.1.subs == feeds,
            Err(_) => replies(r.0, 500, "DB Error") && r.1.subs@.len() == 0,
        },
{
    match collected {
        Ok(feeds) => (ok_reply(), Subs { subs: feeds }),
        Err(_) => (Reply { code: 500, reason: "DB Error" }, Subs { subs: Vec::new() }),
    }
}

/// The body of a request to unsubscribe from a feed.
#[derive(Debug)]
pub struct UnsubFeed {
    pub key: String,
}

/// The key of the feed to unsubscribe from.
pub fn unsub_key(request: &UnsubFeed) -> (r: Key)
    ensures
        r@ == request.key@,
{
    Key::from_raw(request.key.clone())
}

/// The feed to unsubscribe from, or 401 where there is none with the key.
pub fn feed_to_unsubscribe(found: Result<Feed, DbError>) -> (r: Result<Feed, Reply>)
    ensures
        match found {
            Ok(f) => r == Ok::<Feed, Reply>(f),
            Err(_) => r matches Err(e) && replies(e, 401, "No such feed"),
        },
{
    match found {
        Ok(f) => Ok(f),
        Err(_) => Err(Reply { code: 401, reason: "No such feed" }),
    }
}

/// The subscription to remove, or 401 where the user has none to the feed.
pub fn subscription_to_remove(found: Result<Subscription, DbError>) -> (r: Result<Subscription, Reply>)
    ensures
        match found {
            Ok(s) => r == Ok::<Subscription, Reply>(s),
            Err(_) => r matches Err(e) && replies(e, 401, "No sub to unsub"),
        },
{
    match found {
        Ok(s) => Ok(s),
        Err(_) => Err(Reply { code: 401, reason: "No sub to unsub" }),
    }
}

/// The answer once the subscription was deleted, or not.
pub fn reply_to_unsubscribe(deleted: Result<usize, DbError>) -> (r: Reply)
    ensures
        deleted is Ok ==> replies(r, 200, "OK"),
        deleted is Err ==> replies(r, 500, "DB Error"),
{
    match deleted {
        Ok(_) => ok_reply(),
        Err(_) => Reply { code: 500, reason: "DB Error" },
    }
}

/// The user a request is made by.
#[derive(Debug)]
pub struct UserGuard(pub User);

impl std::ops::Deref for UserGuard {
    type Target = User;

    fn deref(&self) -> (r: &User)
        ensures
            *r == self.0,
    {
        &self.0
    }
}

/// The UUID of a request's `uuid` cookie; a request without the cookie is
/// answered with 401.
pub fn cookie_uid(cookie: Option<&str>) -> (r: Result<u128, Reply>)
    requires
        cookie matches Some(c) ==> uuid_parse_result(c@) is Some,
    ensures
        match cookie {
            None => r matches Err(e) && replies(e, 401, "Unauthorized"),
            Some(c) => r == Ok::<u128, Reply>(uuid_parse_result(c@)->0),
        },
{
    match cookie {
        None => Err(Reply { code: 401, reason: "Unauthorized" }),
        Some(c) => match parse_uuid(c) {
            Some(uid) => Ok(uid),
            None => Err(Reply { code: 401, reason: "Unauthorized" }),
        },
    }
}

/// `cookie_uid` for any cookie: `None` where the cookie holds no UUID, a
/// request on which the server stops.
pub fn checked_cookie_uid(cookie: Option<&str>) -> (r: Option<Result<u128, Reply>>)
    ensures
        match cookie {
            None => r matches Some(Err(e)) && replies(e, 401, "Unauthorized"),
            Some(c) => match uuid_parse_result(c@) {
                None => r is None,
                Some(uid) => r == Some(Ok::<u128, Reply>(uid)),
            },
        },
        cookie matches Some(c) ==> forall|v: u128|
            c@ == #[trigger] hyphenated(v) ==> uuid_parse_result(c@) == Some(v),
{
    match cookie {
        None => Some(cookie_uid(None)),
        Some(c) => match parse_uuid(c) {
            None => None,
            Some(_) => Some(cookie_uid(Some(c))),
        },
    }
}

/// The answer where the database cannot be reached.
pub fn broken_db_reply() -> (r: Reply)
    ensures
        replies(r, 500, "Broken DB interaction"),
{
    Reply { code: 500, reason: "Broken DB interaction" }
}

/// The user of a request once looked up by the cookie's UUID; 401 where
/// there is no such user.
pub fn guard_for(found: Result<User, DbError>) -> (r: Result<UserGuard, Reply>)
    ensures
        match found {
            Ok(u) => r matches Ok(g) && g.0 == u,
            Err(_) => r matches Err(e) && replies(e, 401, "User doesnt exist"),
        },
{
    match found {
        Ok(u) => Ok(UserGuard(u)),
        Err(_) => Err(Reply { code: 401, reason: "User doesnt exist" }),
    }
}

/// Why the start page could not find or make its user.
#[derive(Debug, Clone, Copy, PartialEq, Eq, Structural)]
pub enum UserError {
    /// The user of the cookie could not be loaded.
    CantFetch,
    /// A new user could not be stored.
    CantSave,
}

impl UserError {
    /// The error's message.
    pub fn message(&self) -> (r: &'static str)
        ensures
            *self == UserError::CantFetch ==> r@ == "Cant fetch user from DB"@,
            *self == UserError::CantSave ==> r@ == "Cant save new user in DB"@,
    {
        match self {
            UserError::CantFetch => "Cant fetch user from DB",
            UserError::CantSave => "Cant save new user in DB",
        }
    }
}

/// The user of the cookie, once looked up.
pub fn known_user(found: Result<User, DbError>) -> (r: Result<User, UserError>)
    ensures
        match found {
            Ok(u) => r == Ok::<User, UserError>(u),
            Err(_) => r == Err::<User, UserError>(UserError::CantFetch),
        },
{
    match found {
        Ok(u) => Ok(u),
        Err(_) => Err(UserError::CantFetch),
    }
}

/// A version 4 UUID of the RFC 4122 variant: the version field (bits 76 to
/// 79) holds 4 and the two top bits of the variant field (bits 62 and 63) are
/// `10`; the other 122 bits are free.
pub open spec fn is_random_uuid(v: u128) -> bool {
    &&& (v >> 76u128) & 0xf == 4
    &&& (v >> 62u128) & 0x3 == 2
}

/// `uuid::Uuid::new_v4`, taken by `as_u128`: a random UUID. Its source masks
/// random bits with `0xFFFFFFFFFFFF4FFFBFFFFFFFFFFFFFFF` and sets
/// `0x40008000000000000000`, so the version and variant bits are fixed; the
/// other bits are drawn by chance and nothing is stated of them.
#[verifier::external_body]
fn random_uuid() -> (r: u128)
    ensures
        is_random_uuid(r),
{
    uuid::Uuid::new_v4().as_u128()
}

/// A new user with a random version 4 UUID.
pub fn fresh_user() -> (r: NewUser)
    ensures
        is_random_uuid(r.uid),
{
    NewUser { uid: random_uuid() }
}

/// A cookie to set in the answer.
#[derive(Debug)]
pub struct Cookie {
    pub name: &'static str,
    pub value: String,
}

/// The user just stored and the cookie that carries the user's UUID, in its
/// hyphenated form, under the name `uuid`.
pub fn registered_user(inserted: Result<User, DbError>, new_user: NewUser) -> (r: Result<(User, Cookie), UserError>)
    ensures
        match inserted {
            Ok(u) => r matches Ok(p) && p.0 == u && p.1.name@ == "uuid"@ && p.1.value@ == hyphenated(
                new_user.uid,
            ),
            Err(_) => r matches Err(e) && e == UserError::CantSave,
        },
{
    match inserted {
        Ok(u) => Ok((u, Cookie { name: "uuid", value: uuid_text(new_user.uid) })),
        Err(_) => Err(UserError::CantSave),
    }
}

/// Why a template helper failed.
#[derive(Debug)]
pub struct HelperError {
    pub desc: &'static str,
}

/// The `ydz` template helper: its first parameter, rendered, followed by
/// ` pts`; an error where it has no parameter.
pub fn format_date(param: Option<&str>) -> (r: Result<String, HelperError>)
    ensures
        match param {
            Some(p) => r matches Ok(s) && s@ == p@ + " pts"@,
            None => r matches Err(e) && e.desc@ == "Param 0 is required for format helper."@,
        },
{
    match param {
        None => Err(HelperError { desc: "Param 0 is required for format helper." }),
        Some(p) => {
            let mut rendered = String::from_str(p);
            rendered.append(" pts");
            Ok(rendered)
        },
    }
}

/// The pages that list a user's subscribed feeds.
#[derive(Debug, Clone, Copy, PartialEq, Eq, Structural)]
pub enum ListPage {
    /// The start page.
    Index,
    /// The management page.
    Management,
}

/// Why a page of subscribed feeds shows an error instead.
#[derive(Debug, Clone, Copy, PartialEq, Eq, Structural)]
pub enum PageError {
    /// The user could not be found or registered.
    CantFetchUser,
    /// The user's subscriptions could not be loaded.
    CantFetchSubscriptions(ListPage),
    /// The feeds of a subscription could not be loaded.
    CantFetchFeeds(ListPage),
}

impl PageError {
    /// The message of the error page: the start page names the database in
    /// its messages, the management page does not.
    pub fn message(&self) -> (r: &'static str)
        ensures
            *self == PageError::CantFetchUser ==> r@ == "Cant fetch user"@,
            *self == PageError::CantFetchSubscriptions(ListPage::Index) ==> r@
                == "Cant fetch subscriptions from DB"@,
            *self == PageError::CantFetchFeeds(ListPage::Index) ==> r@ == "Cant fetch feeds from DB"@,
            *self == PageError::CantFetchSubscriptions(ListPage::Management) ==> r@
                == "Cant fetch subscriptions"@,
            *self == PageError::CantFetchFeeds(ListPage::Management) ==> r@ == "Cant fetch feeds"@,
    {
        match self {
            PageError::CantFetchUser => "Cant fetch user",
            PageError::CantFetchSubscriptions(ListPage::Index) => "Cant fetch subscriptions from DB",
            PageError::CantFetchFeeds(ListPage::Index) => "Cant fetch feeds from DB",
            PageError::CantFetchSubscriptions(ListPage::Management) => "Cant fetch subscriptions",
            PageError::CantFetchFeeds(ListPage::Management) => "Cant fetch feeds",
        }
    }
}

/// The start page's user, or its error where the user could not be found
/// or registered.
pub fn page_user(found: Result<(User, Option<Cookie>), UserError>) -> (r: Result<(User, Option<Cookie>), PageError>)
    ensures
        match found {
            Ok(p) => r == Ok::<(User, Option<Cookie>), PageError>(p),
            Err(_) => r == Err::<(User, Option<Cookie>), PageError>(PageError::CantFetchUser),
        },
{
    match found {
        Ok(p) => Ok(p),
        Err(_) => Err(PageError::CantFetchUser),
    }
}

/// The feed ids to load for a page, in the order of the user's
/// subscriptions; the page shows an error where they could not be loaded.
pub fn subscriptions_for_page(page: ListPage, found: Result<Vec<Subscription>, DbError>) -> (r: Result<Vec<i32>, PageError>)
    ensures
        match found {
            Ok(subs) => r matches Ok(ids) && ids@ == subs@.map_values(|s: Subscription| s.feed_id),
            Err(_) => r == Err::<Vec<i32>, PageError>(PageError::CantFetchSubscriptions(page)),
        },
{
    match found {
        Ok(subs) => Ok(subscribed_feed_ids(&subs)),
        Err(_) => Err(PageError::CantFetchSubscriptions(page)),
    }
}

/// Adds the feeds loaded for one subscription to the page's feeds; where
/// they could not be loaded the page stops with an error and the feeds stay
/// as they were.
pub fn add_feeds_for_page(page: ListPage, feeds: &mut Vec<UserFeed>, part: Result<Vec<Feed>, DbError>) -> (r: Result<(), PageError>)
    ensures
        match part {
            Ok(p) => r is Ok && final(feeds)@ == old(feeds)@ + p@.map_values(|f: Feed| user_feed_of(f)),
            Err(_) => r == Err::<(), PageError>(PageError::CantFetchFeeds(page)) && final(feeds)@ == old(feeds)@,
        },
{
    match part {
        Ok(p) => {
            extend_user_feeds(feeds, p);
            Ok(())
        },
        Err(_) => Err(PageError::CantFetchFeeds(page)),
    }
}

} // verus!
