//! The server's store of feeds, subscriptions and users, held in memory, and
//! the requests that change it: adding a feed, finding or registering the
//! visiting user, and unsubscribing from a feed.

use vstd::prelude::*;
use crate::ipc::feed_id_datagram;
use crate::collect::NewEntry;
use crate::models::{Entry, Feed, NewFeed, NewUser, Subscription, User};
use crate::server::{
    checked_cookie_uid, feed_to_add, feed_to_unsubscribe, fresh_user, is_random_uuid, known_user,
    ok_reply, registered_user, replies, reply_to_feed_lookup, reply_to_unsubscribe,
    subscribe_to_new_feed, subscription_to_remove, unsub_key, Cookie, DbError, PostUrl, Reply,
    UnsubFeed, UserError,
};
use crate::types::{hyphenated, url_parse_result, uuid_parse_result, Key, Url};

verus! {

/// The stored feeds, subscriptions and users, with the ids that the next
/// feed and the next user get.
#[derive(Debug)]
pub struct Store {
    pub feeds: Vec<Feed>,
    pub subscriptions: Vec<Subscription>,
    pub users: Vec<User>,
    pub next_feed_id: i32,
    pub next_user_id: i32,
    pub entries: Vec<Entry>,
    pub next_entry_id: i64,
}

/// Two stores hold the same entries and give the next entry the same id.
pub open spec fn same_entries(a: Store, b: Store) -> bool {
    a.entries == b.entries && a.next_entry_id == b.next_entry_id
}

/// Some stored feed has key `k`.
pub open spec fn has_feed_key(feeds: Seq<Feed>, k: Seq<char>) -> bool {
    exists|i: int| 0 <= i < feeds.len() && (#[trigger] feeds[i]).key@ == k
}

/// How many stored feeds have key `k`.
pub open spec fn key_count(feeds: Seq<Feed>, k: Seq<char>) -> nat
    decreases feeds.len(),
{
    if feeds.len() == 0 {
        0
    } else {
        key_count(feeds.drop_last(), k) + if feeds.last().key@ == k {
            1nat
        } else {
            0nat
        }
    }
}

/// The first stored feed with key `k`, as a lookup by key finds it.
pub open spec fn feed_with_key(feeds: Seq<Feed>, k: Seq<char>) -> Option<Feed>
    decreases feeds.len(),
{
    if feeds.len() == 0 {
        None
    } else if feeds[0].key@ == k {
        Some(feeds[0])
    } else {
        feed_with_key(feeds.drop_first(), k)
    }
}

/// Some stored user has UUID `uid`.
pub open spec fn has_user(users: Seq<User>, uid: u128) -> bool {
    exists|i: int| 0 <= i < users.len() && (#[trigger] users[i]).uid == uid
}

/// No subscription is stored twice: a user subscribes to a feed at most once.
pub open spec fn distinct_subscriptions(subs: Seq<Subscription>) -> bool {
    forall|i: int, j: int| 0 <= i < subs.len() && 0 <= j < subs.len() && i != j ==> #[trigger] subs[i] != #[trigger] subs[j]
}

/// The subscriptions without `s`.
pub open spec fn without(subs: Seq<Subscription>, s: Subscription) -> Seq<Subscription>
    decreases subs.len(),
{
    if subs.len() == 0 {
        subs
    } else {
        let rest = without(subs.drop_last(), s);
        if subs.last() == s {
            rest
        } else {
            rest.push(subs.last())
        }
    }
}

/// A feed row as an added feed is stored: its id, its URL as key and URL,
/// and nothing fetched yet.
pub open spec fn stored_row(f: Feed, id: i32, u: Seq<char>) -> bool {
    &&& f.id == id
    &&& f.key@ == u
    &&& f.url@ == u
    &&& f.title is None
    &&& f.description is None
    &&& f.language is None
    &&& f.logo is None
    &&& f.copyright is None
    &&& f.interval is None
    &&& f.augmented is None
}

/// The row under which a new feed is stored: the id, the feed's key and URL,
/// and nothing fetched yet.
pub open spec fn new_feed_row(id: i32, feed: NewFeed) -> Feed {
    Feed {
        id,
        key: feed.key,
        url: feed.url,
        title: None,
        description: None,
        language: None,
        logo: None,
        copyright: None,
        interval: None,
        augmented: None,
    }
}

impl Store {
    /// The store is consistent: ids lie below the next ones, and no two
    /// users share a UUID.
    pub open spec fn wf(&self) -> bool {
        &&& forall|i: int| 0 <= i < self.feeds@.len() ==> (#[trigger] self.feeds@[i]).id < self.next_feed_id
        &&& forall|i: int|
            0 <= i < self.subscriptions@.len() ==> (#[trigger] self.subscriptions@[i]).feed_id
                < self.next_feed_id
        &&& forall|i: int| 0 <= i < self.users@.len() ==> (#[trigger] self.users@[i]).id < self.next_user_id
        &&& forall|i: int, j: int|
            0 <= i < self.users@.len() && 0 <= j < self.users@.len() && i != j ==> (#[trigger] self.users@[i]).uid
                != (#[trigger] self.users@[j]).uid
        &&& distinct_subscriptions(self.subscriptions@)
    }

    /// An empty store; the first ids are 1.
    pub fn new() -> (r: Store)
        ensures
            r.wf(),
            r.feeds@.len() == 0,
            r.subscriptions@.len() == 0,
            r.users@.len() == 0,
            r.next_feed_id == 1,
            r.next_user_id == 1,
            r.entries@.len() == 0,
            r.next_entry_id == 1,
    {
        Store {
            feeds: Vec::new(),
            subscriptions: Vec::new(),
            users: Vec::new(),
            next_feed_id: 1,
            next_user_id: 1,
            entries: Vec::new(),
            next_entry_id: 1,
        }
    }

    /// How many feeds have the key.
    pub fn count_feeds_with_key(&self, key: &Key) -> (r: usize)
        ensures
            r == key_count(self.feeds@, key@),
    {
        let n = self.feeds.len();
        let mut count: usize = 0;
        let mut i: usize = 0;
        while i < n
            invariant
                n == self.feeds@.len(),
                0 <= i <= n,
                count == key_count(self.feeds@.take(i as int), key@),
                count <= i,
            decreases n - i,
        {
            assert(self.feeds@.take(i + 1).drop_last() =~= self.feeds@.take(i as int));
            if self.feeds[i].key.same(key) {
                count = count + 1;
            }
            i = i + 1;
        }
        assert(self.feeds@.take(n as int) =~= self.feeds@);
        count
    }

    /// The first feed with the key.
    pub fn feed_by_key(&self, key: &Key) -> (r: Result<Feed, DbError>)
        ensures
            match feed_with_key(self.feeds@, key@) {
                Some(f) => r == Ok::<Feed, DbError>(f),
                None => r is Err,
            },
    {
        let n = self.feeds.len();
        let mut i: usize = 0;
        assert(self.feeds@.skip(0) =~= self.feeds@);
        while i < n
            invariant
                n == self.feeds@.len(),
                0 <= i <= n,
                feed_with_key(self.feeds@, key@) == feed_with_key(self.feeds@.skip(i as int), key@),
            decreases n - i,
        {
            assert(self.feeds@.skip(i as int)[0] == self.feeds@[i as int]);
            if self.feeds[i].key.same(key) {
                return Ok(clone_feed(&self.feeds[i]));
            }
            assert(self.feeds@.skip(i as int).drop_first() =~= self.feeds@.skip(i + 1));
            i = i + 1;
        }
        Err(DbError)
    }

    /// The user's subscription to the feed.
    pub fn subscription(&self, user_id: i32, feed_id: i32) -> (r: Result<Subscription, DbError>)
        ensures
            self.subscriptions@.contains(Subscription { user_id, feed_id }) ==> r == Ok::<
                Subscription,
                DbError,
            >(Subscription { user_id, feed_id }),
            !self.subscriptions@.contains(Subscription { user_id, feed_id }) ==> r is Err,
    {
        let wanted = Subscription { user_id, feed_id };
        let n = self.subscriptions.len();
        let mut i: usize = 0;
        while i < n
            invariant
                n == self.subscriptions@.len(),
                0 <= i <= n,
                wanted == (Subscription { user_id, feed_id }),
                forall|j: int| 0 <= j < i ==> self.subscriptions@[j] != wanted,
            decreases n - i,
        {
            if self.subscriptions[i] == wanted {
                assert(self.subscriptions@[i as int] == wanted);
                return Ok(wanted);
            }
            i = i + 1;
        }
        Err(DbError)
    }

    /// The user with the UUID.
    pub fn user_by_uid(&self, uid: u128) -> (r: Result<User, DbError>)
        ensures
            r matches Ok(u) ==> self.users@.contains(u) && u.uid == uid,
            r is Err ==> !has_user(self.users@, uid),
    {
        let n = self.users.len();
        let mut i: usize = 0;
        while i < n
            invariant
                n == self.users@.len(),
                0 <= i <= n,
                forall|j: int| 0 <= j < i ==> (#[trigger] self.users@[j]).uid != uid,
            decreases n - i,
        {
            if self.users[i].uid == uid {
                let u = self.users[i];
                assert(self.users@[i as int] == u);
                return Ok(u);
            }
            i = i + 1;
        }
        Err(DbError)
    }

    /// Stores a new feed under the next id; fails where the ids ran out.
    pub fn insert_feed(&mut self, feed: NewFeed) -> (r: Result<i32, DbError>)
        requires
            old(self).wf(),
        ensures
            final(self).wf(),
            old(self).next_feed_id == i32::MAX ==> r is Err && *final(self) == *old(self),
            old(self).next_feed_id < i32::MAX ==> {
                &&& r == Ok::<i32, DbError>(old(self).next_feed_id)
                &&& final(self).feeds@.len() == old(self).feeds@.len() + 1
                &&& final(self).feeds@.drop_last() == old(self).feeds@
                &&& final(self).feeds@.last() == new_feed_row(old(self).next_feed_id, feed)
                &&& final(self).subscriptions == old(self).subscriptions
                &&& final(self).users == old(self).users
                &&& final(self).next_feed_id == old(self).next_feed_id + 1
                &&& final(self).next_user_id == old(self).next_user_id
                &&& same_entries(*final(self), *old(self))
            },
    {
        if self.next_feed_id == i32::MAX {
            return Err(DbError);
        }
        let id = self.next_feed_id;
        let NewFeed { key, url } = feed;
        self.feeds.push(
            Feed {
                id,
                key,
                url,
                title: None,
                description: None,
                language: None,
                logo: None,
                copyright: None,
                interval: None,
                augmented: None,
            },
        );
        self.next_feed_id = id + 1;
        assert(self.feeds@.drop_last() =~= old(self).feeds@);
        Ok(id)
    }

    /// Stores a subscription; fails where it is stored already.
    pub fn insert_subscription(&mut self, subscription: Subscription) -> (r: Result<(), DbError>)
        requires
            old(self).wf(),
            subscription.feed_id < old(self).next_feed_id,
        ensures
            final(self).wf(),
            old(self).subscriptions@.contains(subscription) ==> r is Err && *final(self) == *old(self),
            !old(self).subscriptions@.contains(subscription) ==> {
                &&& r is Ok
                &&& final(self).subscriptions@ == old(self).subscriptions@.push(subscription)
                &&& final(self).feeds == old(self).feeds
                &&& final(self).users == old(self).users
                &&& final(self).next_feed_id == old(self).next_feed_id
                &&& final(self).next_user_id == old(self).next_user_id
                &&& same_entries(*final(self), *old(self))
            },
    {
        if self.subscription(subscription.user_id, subscription.feed_id).is_ok() {
            return Err(DbError);
        }
        self.subscriptions.push(subscription);
        assert forall|i: int, j: int|
            0 <= i < self.subscriptions@.len() && 0 <= j < self.subscriptions@.len() && i != j implies #[trigger] self.subscriptions@[i]
                != #[trigger] self.subscriptions@[j] by {
            let last = self.subscriptions@.len() - 1;
            if i == last {
                assert(old(self).subscriptions@[j] == self.subscriptions@[j]);
            } else if j == last {
                assert(old(self).subscriptions@[i] == self.subscriptions@[i]);
            } else {
                assert(old(self).subscriptions@[i] == self.subscriptions@[i]);
                assert(old(self).subscriptions@[j] == self.subscriptions@[j]);
            }
        }
        Ok(())
    }

    /// Deletes the subscription; the number of rows deleted.
    pub fn delete_subscription(&mut self, subscription: Subscription) -> (r: Result<usize, DbError>)
        requires
            old(self).wf(),
        ensures
            final(self).wf(),
            final(self).subscriptions@ == without(old(self).subscriptions@, subscription),
            !final(self).subscriptions@.contains(subscription),
            forall|x: Subscription|
                x != subscription ==> (#[trigger] final(self).subscriptions@.contains(x)
                    <==> old(self).subscriptions@.contains(x)),
            r == Ok::<usize, DbError>(
                (old(self).subscriptions@.len() - final(self).subscriptions@.len()) as usize,
            ),
            final(self).feeds == old(self).feeds,
            final(self).users == old(self).users,
            final(self).next_feed_id == old(self).next_feed_id,
            final(self).next_user_id == old(self).next_user_id,
            same_entries(*final(self), *old(self)),
    {
        let ghost all = self.subscriptions@;
        let mut kept: Vec<Subscription> = Vec::new();
        let n = self.subscriptions.len();
        let mut i: usize = 0;
        while i < n
            invariant
                n == self.subscriptions@.len(),
                all == self.subscriptions@,
                0 <= i <= n,
                kept@ == without(all.take(i as int), subscription),
                kept@.len() <= i,
                forall|j: int| 0 <= j < kept@.len() ==> exists|k: int| 0 <= k < i && #[trigger] kept@[j] == all[k],
            decreases n - i,
        {
            let s = self.subscriptions[i];
            assert(all.take(i + 1).drop_last() =~= all.take(i as int));
            if s != subscription {
                kept.push(s);
                assert(kept@[kept@.len() - 1] == all[i as int]);
            }
            i = i + 1;
            assert forall|j: int| 0 <= j < kept@.len() implies exists|k: int| 0 <= k < i && #[trigger] kept@[j] == all[k] by {
                if j < kept@.len() - 1 || s == subscription {
                } else {
                    assert(kept@[j] == all[i - 1]);
                }
            }
        }
        assert(all.take(n as int) =~= all);
        let removed = n - kept.len();
        proof {
            lemma_without_distinct(all, subscription);
            lemma_without(all, subscription);
        }
        self.subscriptions = kept;
        assert forall|j: int| 0 <= j < self.subscriptions@.len() implies (#[trigger] self.subscriptions@[j]).feed_id
            < self.next_feed_id by {
            let k = choose|k: int| 0 <= k < n && self.subscriptions@[j] == all[k];
        }
        Ok(removed)
    }

    /// Stores a new user under the next id; fails where a user has the UUID
    /// already or the ids ran out.
    pub fn insert_user(&mut self, user: NewUser) -> (r: Result<User, DbError>)
        requires
            old(self).wf(),
        ensures
            final(self).wf(),
            has_user(old(self).users@, user.uid) || old(self).next_user_id == i32::MAX ==> r is Err
                && *final(self) == *old(self),
            !has_user(old(self).users@, user.uid) && old(self).next_user_id < i32::MAX ==> {
                &&& r == Ok::<User, DbError>(User { id: old(self).next_user_id, uid: user.uid })
                &&& final(self).users@ == old(self).users@.push(User { id: old(self).next_user_id, uid: user.uid })
                &&& final(self).feeds == old(self).feeds
                &&& final(self).subscriptions == old(self).subscriptions
                &&& final(self).next_feed_id == old(self).next_feed_id
                &&& final(self).next_user_id == old(self).next_user_id + 1
                &&& same_entries(*final(self), *old(self))
            },
    {
        if self.user_by_uid(user.uid).is_ok() || self.next_user_id == i32::MAX {
            return Err(DbError);
        }
        let stored = User { id: self.next_user_id, uid: user.uid };
        self.users.push(stored);
        self.next_user_id = self.next_user_id + 1;
        assert forall|i: int, j: int|
            0 <= i < self.users@.len() && 0 <= j < self.users@.len() && i != j implies (#[trigger] self.users@[i]).uid
                != (#[trigger] self.users@[j]).uid by {
            if i == self.users@.len() - 1 {
                assert(old(self).users@[j] == self.users@[j]);
            } else if j == self.users@.len() - 1 {
                assert(old(self).users@[i] == self.users@[i]);
            } else {
                assert(old(self).users@[i] == self.users@[i]);
                assert(old(self).users@[j] == self.users@[j]);
            }
        }
        Ok(stored)
    }
}

/// The stored feeds with the id, in order.
pub open spec fn feeds_with_id(feeds: Seq<Feed>, id: i32) -> Seq<Feed>
    decreases feeds.len(),
{
    if feeds.len() == 0 {
        Seq::empty()
    } else {
        let before = feeds_with_id(feeds.drop_last(), id);
        if feeds.last().id == id {
            before.push(feeds.last())
        } else {
            before
        }
    }
}

/// The first stored feed with the id.
pub open spec fn feed_with_id(feeds: Seq<Feed>, id: i32) -> Option<Feed>
    decreases feeds.len(),
{
    if feeds.len() == 0 {
        None
    } else if feeds[0].id == id {
        Some(feeds[0])
    } else {
        feed_with_id(feeds.drop_first(), id)
    }
}

/// The stored entries of a feed, in order.
pub open spec fn entries_of_feed(entries: Seq<Entry>, feed_id: i32) -> Seq<Entry>
    decreases entries.len(),
{
    if entries.len() == 0 {
        Seq::empty()
    } else {
        let before = entries_of_feed(entries.drop_last(), feed_id);
        if entries.last().feed_id == feed_id {
            before.push(entries.last())
        } else {
            before
        }
    }
}

/// The first stored entry with key `k`.
pub open spec fn entry_with_key(entries: Seq<Entry>, k: Seq<char>) -> Option<Entry>
    decreases entries.len(),
{
    if entries.len() == 0 {
        None
    } else if entries[0].key@ == k {
        Some(entries[0])
    } else {
        entry_with_key(entries.drop_first(), k)
    }
}

/// The subscriptions of a user, in order.
pub open spec fn subscriptions_of_user(subs: Seq<Subscription>, user_id: i32) -> Seq<Subscription>
    decreases subs.len(),
{
    if subs.len() == 0 {
        Seq::empty()
    } else {
        let before = subscriptions_of_user(subs.drop_last(), user_id);
        if subs.last().user_id == user_id {
            before.push(subs.last())
        } else {
            before
        }
    }
}

/// The feeds once a visited feed was written back: every row with its id
/// becomes the visited feed.
pub open spec fn updated_feeds(feeds: Seq<Feed>, feed: Feed) -> Seq<Feed> {
    feeds.map_values(|f: Feed| if f.id == feed.id { feed } else { f })
}

/// Some stored feed has the id.
pub open spec fn has_feed_id(feeds: Seq<Feed>, id: i32) -> bool {
    exists|i: int| 0 <= i < feeds.len() && (#[trigger] feeds[i]).id == id
}

/// The row under which a new entry is stored.
pub open spec fn entry_row(id: i64, e: NewEntry) -> Entry {
    Entry {
        id,
        key: e.key,
        feed_id: e.feed_id,
        url: e.url,
        title: e.title,
        author: e.author,
        description: e.description,
        content: e.content,
        published: e.published,
    }
}

/// New entries as stored, numbered from `next`.
pub open spec fn entry_rows(next: i64, entries: Seq<NewEntry>) -> Seq<Entry> {
    Seq::new(entries.len(), |i: int| entry_row((next + i) as i64, entries[i]))
}

impl Store {
    /// The feeds with the id.
    pub fn feeds_by_id(&self, id: i32) -> (r: Vec<Feed>)
        ensures
            r@ == feeds_with_id(self.feeds@, id),
    {
        let n = self.feeds.len();
        let mut out: Vec<Feed> = Vec::new();
        let mut i: usize = 0;
        while i < n
            invariant
                n == self.feeds@.len(),
                0 <= i <= n,
                out@ == feeds_with_id(self.feeds@.take(i as int), id),
            decreases n - i,
        {
            assert(self.feeds@.take(i + 1).drop_last() =~= self.feeds@.take(i as int));
            if self.feeds[i].id == id {
                out.push(clone_feed(&self.feeds[i]));
            }
            i = i + 1;
        }
        assert(self.feeds@.take(n as int) =~= self.feeds@);
        out
    }

    /// The first feed with the id.
    pub fn first_feed_by_id(&self, id: i32) -> (r: Result<Feed, DbError>)
        ensures
            match feed_with_id(self.feeds@, id) {
                Some(f) => r == Ok::<Feed, DbError>(f),
                None => r is Err,
            },
    {
        let n = self.feeds.len();
        let mut i: usize = 0;
        assert(self.feeds@.skip(0) =~= self.feeds@);
        while i < n
            invariant
                n == self.feeds@.len(),
                0 <= i <= n,
                feed_with_id(self.feeds@, id) == feed_with_id(self.feeds@.skip(i as int), id),
            decreases n - i,
        {
            assert(self.feeds@.skip(i as int)[0] == self.feeds@[i as int]);
            if self.feeds[i].id == id {
                return Ok(clone_feed(&self.feeds[i]));
            }
            assert(self.feeds@.skip(i as int).drop_first() =~= self.feeds@.skip(i + 1));
            i = i + 1;
        }
        Err(DbError)
    }

    /// The entries of a feed.
    pub fn entries_of(&self, feed_id: i32) -> (r: Vec<Entry>)
        ensures
            r@ == entries_of_feed(self.entries@, feed_id),
    {
        let n = self.entries.len();
        let mut out: Vec<Entry> = Vec::new();
        let mut i: usize = 0;
        while i < n
            invariant
                n == self.entries@.len(),
                0 <= i <= n,
                out@ == entries_of_feed(self.entries@.take(i as int), feed_id),
            decreases n - i,
        {
            assert(self.entries@.take(i + 1).drop_last() =~= self.entries@.take(i as int));
            if self.entries[i].feed_id == feed_id {
                out.push(clone_entry(&self.entries[i]));
            }
            i = i + 1;
        }
        assert(self.entries@.take(n as int) =~= self.entries@);
        out
    }

    /// The first entry with the key.
    pub fn entry_by_key(&self, key: &Key) -> (r: Result<Entry, DbError>)
        ensures
            match entry_with_key(self.entries@, key@) {
                Some(e) => r == Ok::<Entry, DbError>(e),
                None => r is Err,
            },
    {
        let n = self.entries.len();
        let mut i: usize = 0;
        assert(self.entries@.skip(0) =~= self.entries@);
        while i < n
            invariant
                n == self.entries@.len(),
                0 <= i <= n,
                entry_with_key(self.entries@, key@) == entry_with_key(self.entries@.skip(i as int), key@),
            decreases n - i,
        {
            assert(self.entries@.skip(i as int)[0] == self.entries@[i as int]);
            if self.entries[i].key.same(key) {
                return Ok(clone_entry(&self.entries[i]));
            }
            assert(self.entries@.skip(i as int).drop_first() =~= self.entries@.skip(i + 1));
            i = i + 1;
        }
        Err(DbError)
    }

    /// The subscriptions of a user.
    pub fn subscriptions_of(&self, user_id: i32) -> (r: Vec<Subscription>)
        ensures
            r@ == subscriptions_of_user(self.subscriptions@, user_id),
    {
        let n = self.subscriptions.len();
        let mut out: Vec<Subscription> = Vec::new();
        let mut i: usize = 0;
        while i < n
            invariant
                n == self.subscriptions@.len(),
                0 <= i <= n,
                out@ == subscriptions_of_user(self.subscriptions@.take(i as int), user_id),
            decreases n - i,
        {
            assert(self.subscriptions@.take(i + 1).drop_last() =~= self.subscriptions@.take(i as int));
            if self.subscriptions[i].user_id == user_id {
                out.push(self.subscriptions[i]);
            }
            i = i + 1;
        }
        assert(self.subscriptions@.take(n as int) =~= self.subscriptions@);
        out
    }

    /// Writes back a visited feed and stores its new entries, all or
    /// nothing: where the entry ids would run out nothing is stored.
    /// Whether the feed is still stored, and so to be visited again.
    pub fn save_visit(&mut self, feed: &Feed, entries: Vec<NewEntry>) -> (r: Result<bool, DbError>)
        requires
            old(self).wf(),
        ensures
            final(self).wf(),
            old(self).next_entry_id + entries@.len() > i64::MAX ==> r is Err && *final(self) == *old(self),
            old(self).next_entry_id + entries@.len() <= i64::MAX ==> {
                &&& r == Ok::<bool, DbError>(has_feed_id(old(self).feeds@, feed.id))
                &&& final(self).feeds@ == updated_feeds(old(self).feeds@, *feed)
                &&& final(self).entries@ == old(self).entries@ + entry_rows(old(self).next_entry_id, entries@)
                &&& final(self).next_entry_id == old(self).next_entry_id + entries@.len()
                &&& final(self).subscriptions == old(self).subscriptions
                &&& final(self).users == old(self).users
                &&& final(self).next_feed_id == old(self).next_feed_id
                &&& final(self).next_user_id == old(self).next_user_id
            },
    {
        let count = entries.len();
        if (self.next_entry_id as i128) + (count as i128) > (i64::MAX as i128) {
            return Err(DbError);
        }
        let ghost old_feeds = self.feeds@;
        let n = self.feeds.len();
        let mut feeds: Vec<Feed> = Vec::new();
        let mut active = false;
        let mut i: usize = 0;
        while i < n
            invariant
                n == self.feeds@.len(),
                old_feeds == self.feeds@,
                0 <= i <= n,
                feeds@ == updated_feeds(old_feeds.take(i as int), *feed),
                active == has_feed_id(old_feeds.take(i as int), feed.id),
            decreases n - i,
        {
            let ghost before = old_feeds.take(i as int);
            let ghost after = old_feeds.take(i + 1);
            if self.feeds[i].id == feed.id {
                feeds.push(clone_feed(feed));
                active = true;
                assert(after[i as int].id == feed.id);
            } else {
                feeds.push(clone_feed(&self.feeds[i]));
                proof {
                    if has_feed_id(after, feed.id) {
                        let k = choose|k: int| 0 <= k < after.len() && (#[trigger] after[k]).id == feed.id;
                        assert(before[k] == after[k]);
                    }
                }
            }
            proof {
                if has_feed_id(before, feed.id) {
                    let k = choose|k: int| 0 <= k < before.len() && (#[trigger] before[k]).id == feed.id;
                    assert(after[k] == before[k]);
                }
            }
            i = i + 1;
            assert(feeds@ =~= updated_feeds(old_feeds.take(i as int), *feed));
        }
        assert(old_feeds.take(n as int) =~= old_feeds);
        self.feeds = feeds;
        assert forall|k: int| 0 <= k < self.feeds@.len() implies (#[trigger] self.feeds@[k]).id < self.next_feed_id by {
            assert(old_feeds[k].id < self.next_feed_id);
        }
        let ghost start = self.entries@;
        let ghost first = self.next_entry_id;
        let ghost all = entries@;
        let ghost mid = *self;
        assert(mid.wf());
        for e in it: entries.into_iter()
            invariant
                mid.wf(),
                self.feeds == mid.feeds,
                self.subscriptions == mid.subscriptions,
                self.users == mid.users,
                self.next_feed_id == mid.next_feed_id,
                self.next_user_id == mid.next_user_id,
                it.seq() == all,
                all.len() == count,
                first + count <= i64::MAX,
                self.next_entry_id == first + it.index(),
                self.entries@ == start + entry_rows(first, all.take(it.index() as int)),
        {
            let id = self.next_entry_id;
            let NewEntry { key, url, published, feed_id, title, author, description, content } = e;
            self.entries.push(
                Entry { id, key, feed_id, url, title, author, description, content, published },
            );
            self.next_entry_id = id + 1;
            assert(self.entries@ =~= start + entry_rows(first, all.take(it.index() + 1)));
        }
        assert(all.take(count as int) =~= all);
        Ok(active)
    }
}

fn clone_entry(e: &Entry) -> (r: Entry)
    ensures
        r == *e,
{
    Entry {
        id: e.id,
        key: e.key.duplicate(),
        feed_id: e.feed_id,
        url: clone_url(&e.url),
        title: clone_text(&e.title),
        author: clone_text(&e.author),
        description: clone_text(&e.description),
        content: clone_text(&e.content),
        published: e.published,
    }
}

fn clone_text(s: &Option<String>) -> (r: Option<String>)
    ensures
        r == *s,
{
    match s {
        Some(t) => Some(t.clone()),
        None => None,
    }
}

fn clone_url(u: &Option<Url>) -> (r: Option<Url>)
    ensures
        r == *u,
{
    match u {
        Some(v) => Some(v.duplicate()),
        None => None,
    }
}

fn clone_feed(f: &Feed) -> (r: Feed)
    ensures
        r == *f,
{
    Feed {
        id: f.id,
        key: f.key.duplicate(),
        url: f.url.duplicate(),
        title: clone_text(&f.title),
        description: clone_text(&f.description),
        language: clone_text(&f.language),
        logo: clone_url(&f.logo),
        copyright: clone_text(&f.copyright),
        interval: f.interval,
        augmented: f.augmented,
    }
}

proof fn lemma_key_count(feeds: Seq<Feed>, k: Seq<char>)
    ensures
        key_count(feeds, k) > 0 <==> has_feed_key(feeds, k),
    decreases feeds.len(),
{
    if feeds.len() > 0 {
        let rest = feeds.drop_last();
        lemma_key_count(rest, k);
        if has_feed_key(rest, k) {
            let i = choose|i: int| 0 <= i < rest.len() && (#[trigger] rest[i]).key@ == k;
            assert(feeds[i] == rest[i]);
        }
        if feeds.last().key@ == k {
            assert(feeds[feeds.len() - 1].key@ == k);
        }
        if has_feed_key(feeds, k) && feeds.last().key@ != k {
            let i = choose|i: int| 0 <= i < feeds.len() && (#[trigger] feeds[i]).key@ == k;
            assert(rest[i] == feeds[i]);
        }
    }
}

proof fn lemma_feed_with_key(feeds: Seq<Feed>, k: Seq<char>)
    ensures
        feed_with_key(feeds, k) is Some <==> has_feed_key(feeds, k),
    decreases feeds.len(),
{
    if feeds.len() > 0 {
        let rest = feeds.drop_first();
        lemma_feed_with_key(rest, k);
        if feeds[0].key@ == k {
        } else {
            if has_feed_key(rest, k) {
                let i = choose|i: int| 0 <= i < rest.len() && (#[trigger] rest[i]).key@ == k;
                assert(feeds[i + 1] == rest[i]);
            }
            if has_feed_key(feeds, k) {
                let i = choose|i: int| 0 <= i < feeds.len() && (#[trigger] feeds[i]).key@ == k;
                assert(rest[i - 1] == feeds[i]);
            }
        }
    }
}

proof fn lemma_without(subs: Seq<Subscription>, s: Subscription)
    ensures
        !without(subs, s).contains(s),
        forall|x: Subscription| #[trigger] without(subs, s).contains(x) ==> subs.contains(x),
        forall|x: Subscription| x != s && #[trigger] subs.contains(x) ==> without(subs, s).contains(x),
    decreases subs.len(),
{
    if subs.len() > 0 {
        let rest = subs.drop_last();
        lemma_without(rest, s);
        let w = without(subs, s);
        assert forall|x: Subscription| x != s && #[trigger] subs.contains(x) implies w.contains(x) by {
            let j = choose|j: int| 0 <= j < subs.len() && subs[j] == x;
            if j < subs.len() - 1 {
                assert(rest[j] == x);
                assert(rest.contains(x));
                let i = choose|i: int| 0 <= i < without(rest, s).len() && without(rest, s)[i] == x;
                assert(w[i] == x);
            } else {
                assert(w[w.len() - 1] == x);
            }
        }
        assert forall|x: Subscription| #[trigger] w.contains(x) implies subs.contains(x) by {
            let i = choose|i: int| 0 <= i < w.len() && w[i] == x;
            if i < without(rest, s).len() {
                assert(without(rest, s)[i] == x);
                assert(without(rest, s).contains(x));
                let j = choose|j: int| 0 <= j < rest.len() && rest[j] == x;
                assert(subs[j] == x);
            } else {
                assert(subs[subs.len() - 1] == x);
            }
        }
        if w.contains(s) {
            let i = choose|i: int| 0 <= i < w.len() && w[i] == s;
            if i < without(rest, s).len() {
                assert(without(rest, s)[i] == s);
            }
        }
    }
}

proof fn lemma_without_distinct(subs: Seq<Subscription>, s: Subscription)
    requires
        distinct_subscriptions(subs),
    ensures
        distinct_subscriptions(without(subs, s)),
    decreases subs.len(),
{
    if subs.len() > 0 {
        let rest = subs.drop_last();
        assert forall|i: int, j: int| 0 <= i < rest.len() && 0 <= j < rest.len() && i != j implies #[trigger] rest[i]
            != #[trigger] rest[j] by {
            assert(rest[i] == subs[i] && rest[j] == subs[j]);
        }
        lemma_without_distinct(rest, s);
        lemma_without(rest, s);
        let w = without(rest, s);
        let last = subs.last();
        if last != s {
            if w.contains(last) {
                assert(rest.contains(last));
                let k = choose|k: int| 0 <= k < rest.len() && rest[k] == last;
                assert(subs[k] == subs[subs.len() - 1]);
            }
            let ww = w.push(last);
            assert forall|i: int, j: int| 0 <= i < ww.len() && 0 <= j < ww.len() && i != j implies #[trigger] ww[i]
                != #[trigger] ww[j] by {
                if i == ww.len() - 1 {
                    assert(ww[j] == w[j]);
                } else if j == ww.len() - 1 {
                    assert(ww[i] == w[i]);
                } else {
                    assert(ww[i] == w[i] && ww[j] == w[j]);
                }
            }
        }
    }
}

/// What adding a feed by a URL text does to the store, what the server
/// answers and which datagram, if any, it sends the fetcher: a text that is
/// no URL is answered with 400; a feed whose key is stored already is
/// answered with success and nothing changes; otherwise the feed is stored
/// under the next id, the user subscribes to it and the fetcher is told its
/// id, unless the ids ran out (500).
pub open spec fn feed_added(
    old: Store,
    url: Seq<char>,
    user: User,
    new: Store,
    reply: Reply,
    datagram: Option<Seq<u8>>,
) -> bool {
    match url_parse_result(url) {
        None => new == old && replies(reply, 400, "Bad url") && datagram is None,
        Some(u) => if has_feed_key(old.feeds@, u) {
            new == old && replies(reply, 200, "OK") && datagram is None
        } else if old.next_feed_id == i32::MAX {
            new == old && replies(reply, 500, "DB transaction failed") && datagram is None
        } else {
            let id = old.next_feed_id;
            &&& replies(reply, 200, "OK")
            &&& datagram == Some(feed_id_datagram(id))
            &&& new.feeds@.len() == old.feeds@.len() + 1
            &&& new.feeds@.drop_last() == old.feeds@
            &&& stored_row(new.feeds@.last(), id, u)
            &&& new.subscriptions@ == old.subscriptions@.push(Subscription { user_id: user.id, feed_id: id })
            &&& new.users == old.users
            &&& new.next_feed_id == id + 1
            &&& new.next_user_id == old.next_user_id
            &&& same_entries(new, old)
        },
    }
}

/// Adds a feed for the user, as the request to add a feed does.
pub fn add_feed(store: &mut Store, request: &PostUrl, user: &User) -> (r: (Reply, Option<Vec<u8>>))
    requires
        old(store).wf(),
    ensures
        final(store).wf(),
        feed_added(*old(store), request.url@, *user, *final(store), r.0, r.1.deep_view()),
{
    let new_feed = match feed_to_add(request) {
        Ok(f) => f,
        Err(reply) => return (reply, None),
    };
    let count = store.count_feeds_with_key(&new_feed.key);
    proof {
        lemma_key_count(store.feeds@, new_feed.key@);
    }
    match reply_to_feed_lookup(Ok(count)) {
        Some(reply) => return (reply, None),
        None => {},
    }
    let ghost before = *store;
    let ghost key = new_feed.key@;
    let inserted = store.insert_feed(new_feed);
    match subscribe_to_new_feed(inserted, user) {
        Err(reply) => (reply, None),
        Ok((datagram, subscription)) => {
            proof {
                assert forall|i: int| 0 <= i < store.subscriptions@.len() implies (#[trigger] store.subscriptions@[i])
                    != subscription by {
                    assert(store.subscriptions@[i] == before.subscriptions@[i]);
                }
            }
            let _ = store.insert_subscription(subscription);
            assert(datagram.deep_view() == datagram@);
            (ok_reply(), Some(datagram))
        },
    }
}

/// Adding a feed that was just added successfully answers with success
/// again and changes nothing: the feed is not stored twice, no subscription
/// is added and the fetcher is not told again.
pub proof fn lemma_adding_twice_changes_nothing(
    s0: Store,
    s1: Store,
    s2: Store,
    url: Seq<char>,
    user1: User,
    user2: User,
    r1: Reply,
    r2: Reply,
    d1: Option<Seq<u8>>,
    d2: Option<Seq<u8>>,
)
    requires
        feed_added(s0, url, user1, s1, r1, d1),
        feed_added(s1, url, user2, s2, r2, d2),
        r1.code == 200,
    ensures
        s2 == s1,
        replies(r2, 200, "OK"),
        d2 is None,
{
    let u = url_parse_result(url)->0;
    if !has_feed_key(s0.feeds@, u) && s0.next_feed_id != i32::MAX {
        assert(s1.feeds@[s1.feeds@.len() - 1].key@ == u);
    }
    assert(has_feed_key(s1.feeds@, u));
}

/// What finding the visiting user does: a request with a `uuid` cookie finds
/// the stored user with that UUID (or fails to), changing nothing, and one
/// whose cookie holds no UUID makes the server stop (`None`); a request
/// without the cookie stores a new user with a fresh random UUID and is given
/// the cookie with that UUID, unless storing fails.
pub open spec fn user_obtained(
    old: Store,
    cookie: Option<Seq<char>>,
    new: Store,
    r: Option<Result<(User, Option<Cookie>), UserError>>,
) -> bool {
    match cookie {
        Some(c) => {
            &&& new == old
            &&& forall|v: u128| c == #[trigger] hyphenated(v) ==> uuid_parse_result(c) == Some(v)
            &&& match uuid_parse_result(c) {
                None => r is None,
                Some(uid) => if has_user(old.users@, uid) {
                    r matches Some(Ok((u, None))) && old.users@.contains(u) && u.uid == uid
                } else {
                    r matches Some(Err(e)) && e == UserError::CantFetch
                },
            }
        },
        None => match r {
            Some(Ok((u, Some(k)))) => {
                &&& k.name@ == "uuid"@
                &&& k.value@ == hyphenated(u.uid)
                &&& is_random_uuid(u.uid)
                &&& !has_user(old.users@, u.uid)
                &&& u.id == old.next_user_id
                &&& new.users@ == old.users@.push(u)
                &&& new.feeds == old.feeds
                &&& new.subscriptions == old.subscriptions
                &&& new.next_feed_id == old.next_feed_id
                &&& new.next_user_id == old.next_user_id + 1
                &&& same_entries(new, old)
            },
            Some(Err(e)) => {
                &&& e == UserError::CantSave
                &&& new == old
                &&& old.next_user_id == i32::MAX || exists|i: int|
                    0 <= i < old.users@.len() && is_random_uuid((#[trigger] old.users@[i]).uid)
            },
            _ => false,
        },
    }
}

/// The text of an optional cookie.
pub open spec fn cookie_text(cookie: Option<&str>) -> Option<Seq<char>> {
    match cookie {
        Some(c) => Some(c@),
        None => None,
    }
}

/// Finds the user of a request by its `uuid` cookie, or registers a new
/// one; `None` where the cookie holds no UUID.
pub fn get_or_create_user(store: &mut Store, cookie: Option<&str>) -> (r: Option<Result<(User, Option<Cookie>), UserError>>)
    requires
        old(store).wf(),
    ensures
        final(store).wf(),
        user_obtained(*old(store), cookie_text(cookie), *final(store), r),
{
    match cookie {
        Some(value) => {
            let uid = match checked_cookie_uid(Some(value)) {
                Some(Ok(uid)) => uid,
                _ => return None,
            };
            match known_user(store.user_by_uid(uid)) {
                Ok(user) => Some(Ok((user, None))),
                Err(e) => Some(Err(e)),
            }
        },
        None => {
            let new_user = fresh_user();
            match registered_user(store.insert_user(new_user), new_user) {
                Ok((user, cookie)) => Some(Ok((user, Some(cookie)))),
                Err(e) => Some(Err(e)),
            }
        },
    }
}

/// A user registered by a request without a cookie is found again by the
/// next request, which carries the cookie it was given: the same user is
/// returned, no user is stored and no cookie is set.
pub proof fn lemma_registered_user_is_found_again(
    s0: Store,
    s1: Store,
    s2: Store,
    r1: Option<Result<(User, Option<Cookie>), UserError>>,
    r2: Option<Result<(User, Option<Cookie>), UserError>>,
    cookie: Cookie,
)
    requires
        s0.wf(),
        user_obtained(s0, None, s1, r1),
        r1 matches Some(Ok((_, Some(k)))) && k == cookie,
        user_obtained(s1, Some(cookie.value@), s2, r2),
    ensures
        s2 == s1,
        r2 matches Some(Ok((u2, None))) && r1 matches Some(Ok((u1, _))) && u2 == u1,
{
    let u1 = match r1 {
        Some(Ok((u, _))) => u,
        _ => s0.users@[0],
    };
    let uid = u1.uid;
    assert(uuid_parse_result(cookie.value@) == Some(uid));
    let last = s1.users@.len() - 1;
    assert(s1.users@[last] == u1);
    assert(has_user(s1.users@, uid));
    let u2 = match r2 {
        Some(Ok((u, _))) => u,
        _ => u1,
    };
    let j = choose|j: int| 0 <= j < s1.users@.len() && s1.users@[j] == u2;
    if j != last {
        assert(s0.users@[j] == s1.users@[j]);
        assert(!has_user(s0.users@, uid));
    }
}

/// What unsubscribing from the feed with a key does: without such a feed,
/// or without the user's subscription to it, the answer is 401 and nothing
/// changes; otherwise the subscription is deleted and the answer is success.
pub open spec fn unsubscribed(old: Store, user: User, key: Seq<char>, new: Store, r: Reply) -> bool {
    match feed_with_key(old.feeds@, key) {
        None => new == old && replies(r, 401, "No such feed"),
        Some(f) => {
            let s = Subscription { user_id: user.id, feed_id: f.id };
            if !old.subscriptions@.contains(s) {
                new == old && replies(r, 401, "No sub to unsub")
            } else {
                &&& replies(r, 200, "OK")
                &&& new.subscriptions@ == without(old.subscriptions@, s)
                &&& new.feeds == old.feeds
                &&& new.users == old.users
                &&& new.next_feed_id == old.next_feed_id
                &&& new.next_user_id == old.next_user_id
                &&& same_entries(new, old)
            &&& same_entries(new, old)
            }
        },
    }
}

/// Unsubscribes the user from the feed with the request's key.
pub fn unsubscribe(store: &mut Store, user: &User, request: &UnsubFeed) -> (r: Reply)
    requires
        old(store).wf(),
    ensures
        final(store).wf(),
        unsubscribed(*old(store), *user, request.key@, *final(store), r),
{
    let key = unsub_key(request);
    let feed = match feed_to_unsubscribe(store.feed_by_key(&key)) {
        Ok(feed) => feed,
        Err(reply) => return reply,
    };
    let subscription = match subscription_to_remove(store.subscription(user.id, feed.id)) {
        Ok(subscription) => subscription,
        Err(reply) => return reply,
    };
    reply_to_unsubscribe(store.delete_subscription(subscription))
}

/// Unsubscribing again right after a successful unsubscription finds no
/// subscription: the answer is 401 and nothing changes.
pub proof fn lemma_unsubscribing_twice(
    s0: Store,
    s1: Store,
    s2: Store,
    user: User,
    key: Seq<char>,
    r1: Reply,
    r2: Reply,
)
    requires
        unsubscribed(s0, user, key, s1, r1),
        r1.code == 200,
        unsubscribed(s1, user, key, s2, r2),
    ensures
        replies(r2, 401, "No sub to unsub"),
        s2 == s1,
{
    let f = feed_with_key(s0.feeds@, key)->0;
    let s = Subscription { user_id: user.id, feed_id: f.id };
    lemma_without(s0.subscriptions@, s);
}

/// Unsubscribing deletes exactly the requested subscription, the user's
/// subscription to the feed with the key: no other subscription, of this
/// user or of another, is deleted or added, and after a successful answer
/// the requested one is gone.
pub proof fn lemma_unsubscribe_deletes_only_that_subscription(
    old: Store,
    user: User,
    key: Seq<char>,
    new: Store,
    r: Reply,
)
    requires
        unsubscribed(old, user, key, new, r),
    ensures
        forall|x: Subscription|
            #[trigger] new.subscriptions@.contains(x) != old.subscriptions@.contains(x) ==> (
            feed_with_key(old.feeds@, key) matches Some(f) && x == (Subscription {
                user_id: user.id,
                feed_id: f.id,
            })),
        r.code == 200 ==> (feed_with_key(old.feeds@, key) matches Some(f) && old.subscriptions@.contains(
            Subscription { user_id: user.id, feed_id: f.id },
        ) && !new.subscriptions@.contains(Subscription { user_id: user.id, feed_id: f.id })),
{
    if let Some(f) = feed_with_key(old.feeds@, key) {
        lemma_without(old.subscriptions@, Subscription { user_id: user.id, feed_id: f.id });
    }
}

/// Saving a visit stores the new entries in order under consecutive ids
/// from the next one, each row carrying every field of its entry unchanged:
/// key, feed, URL, title, author, description, content and publication time.
pub proof fn lemma_saved_rows_keep_entry_fields(next: i64, entries: Seq<NewEntry>)
    ensures
        entry_rows(next, entries).len() == entries.len(),
        forall|i: int|
            0 <= i < entries.len() ==> {
                let row = #[trigger] entry_rows(next, entries)[i];
                let e = entries[i];
                &&& row.id == (next + i) as i64
                &&& row.key == e.key
                &&& row.feed_id == e.feed_id
                &&& row.url == e.url
                &&& row.title == e.title
                &&& row.author == e.author
                &&& row.description == e.description
                &&& row.content == e.content
                &&& row.published == e.published
            },
{
}

} // verus!
