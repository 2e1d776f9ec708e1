//! Turning a fetched channel into feed metadata and new entries.

use vstd::prelude::*;
use crate::models::{same_feed_but_schedule, Feed};
use crate::text::{language_in_range, purified, purify_text, trim, trim_str, unified_language, unify_language};
use crate::types::{hyphenated, new_v5_x500, time_le, url_parse_result, uuid_v5_x500, Key, Timespec, Url};

verus! {

/// The seconds since the epoch that `mailparse` reads from an RFC 822 date,
/// or nothing where it cannot read one.
pub uninterp spec fn rfc822_seconds(date: Seq<char>) -> Option<i64>;

/// `mailparse::dateparse`; its error is dropped. The result is named: it is
/// a function of the text alone.
#[verifier::external_body]
fn dateparse(date: &str) -> (r: Option<i64>)
    ensures
        r == rfc822_seconds(date@),
{
    match mailparse::dateparse(date) {
        Ok(seconds) => Some(seconds),
        Err(_) => None,
    }
}

/// The point in time of an RFC 822 date, at a whole second.
pub open spec fn parsed_date(date: Seq<char>) -> Option<Timespec> {
    match rfc822_seconds(date) {
        Some(sec) => Some(Timespec { sec, nsec: 0 }),
        None => None,
    }
}

/// Reads an RFC 822 date, such as an item's publication date.
pub fn parse_rfc822_date(date: &str) -> (r: Option<Timespec>)
    ensures
        r == parsed_date(date@),
{
    match dateparse(date) {
        Some(sec) => Some(Timespec::new(sec, 0)),
        None => None,
    }
}

/// The URL that a link denotes once trimmed.
pub open spec fn parsed_url(url: Seq<char>) -> Option<Seq<char>> {
    url_parse_result(trim(url))
}

/// Reads a link as a URL, ignoring surrounding white space.
pub fn parse_url(url: &str) -> (r: Option<Url>)
    ensures
        r.deep_view() == parsed_url(url@),
{
    Url::parse(trim_str(url))
}

/// A channel's image.
#[derive(Debug)]
pub struct Image {
    pub url: String,
}

/// An item of a channel, as RSS gives it.
#[derive(Debug)]
pub struct Item {
    pub title: Option<String>,
    pub link: Option<String>,
    pub description: Option<String>,
    pub author: Option<String>,
    pub pub_date: Option<String>,
    pub content: Option<String>,
}

/// A fetched RSS channel.
#[derive(Debug)]
pub struct Channel {
    pub title: String,
    pub description: String,
    pub language: Option<String>,
    pub image: Option<Image>,
    pub copyright: Option<String>,
    pub items: Vec<Item>,
}

/// An entry to be stored.
#[derive(Debug)]
pub struct NewEntry {
    pub key: Key,
    pub url: Option<Url>,
    pub published: Option<Timespec>,
    pub feed_id: i32,
    pub title: Option<String>,
    pub author: Option<String>,
    pub description: Option<String>,
    pub content: Option<String>,
}

/// What a new entry holds, its texts taken as character sequences.
pub struct EntryRecord {
    pub key: Seq<char>,
    pub url: Option<Seq<char>>,
    pub published: Option<Timespec>,
    pub feed_id: i32,
    pub title: Option<Seq<char>>,
    pub author: Option<Seq<char>>,
    pub description: Option<Seq<char>>,
    pub content: Option<Seq<char>>,
}

impl View for NewEntry {
    type V = EntryRecord;

    open spec fn view(&self) -> EntryRecord {
        EntryRecord {
            key: self.key@,
            url: self.url.deep_view(),
            published: self.published,
            feed_id: self.feed_id,
            title: self.title.deep_view(),
            author: self.author.deep_view(),
            description: self.description.deep_view(),
            content: self.content.deep_view(),
        }
    }
}

impl DeepView for NewEntry {
    type V = EntryRecord;

    open spec fn deep_view(&self) -> EntryRecord {
        self@
    }
}

/// An optional text, purified.
pub open spec fn purified_opt(s: Option<Seq<char>>) -> Option<Seq<char>> {
    match s {
        Some(t) => purified(t),
        None => None,
    }
}

fn purify_opt(s: &Option<String>) -> (r: Option<String>)
    ensures
        r.deep_view() == purified_opt(s.deep_view()),
{
    match s {
        Some(t) => purify_text(t.clone()),
        None => None,
    }
}

/// The publication time of an item, where it has a readable date.
pub open spec fn item_published(item: Item) -> Option<Timespec> {
    match item.pub_date {
        Some(d) => parsed_date(d@),
        None => None,
    }
}

/// The URL of an item, where its link is one.
pub open spec fn item_url(item: Item) -> Option<Seq<char>> {
    match item.link {
        Some(l) => parsed_url(l@),
        None => None,
    }
}

/// The key of an item: its URL, else the UUID of its raw title; an item with
/// neither has no key.
pub open spec fn item_key(item: Item) -> Option<Seq<char>> {
    match item_url(item) {
        Some(u) => Some(u),
        None => match item.title {
            Some(t) => Some(hyphenated(uuid_v5_x500(t@))),
            None => None,
        },
    }
}

/// An item is new unless its date is not later than the feed's mark.
pub open spec fn is_fresh(item: Item, mark: Timespec) -> bool {
    match item_published(item) {
        Some(p) => !time_le(p, mark),
        None => true,
    }
}

/// The entry that an item gives a feed with mark `mark`: none for an item
/// that is not new or has no key.
pub open spec fn item_entry(item: Item, feed_id: i32, mark: Timespec) -> Option<EntryRecord> {
    if is_fresh(item, mark) && item_key(item) is Some {
        Some(
            EntryRecord {
                key: item_key(item)->0,
                url: item_url(item),
                published: item_published(item),
                feed_id,
                title: purified_opt(item.title.deep_view()),
                author: purified_opt(item.author.deep_view()),
                description: purified_opt(item.description.deep_view()),
                content: purified_opt(item.content.deep_view()),
            },
        )
    } else {
        None
    }
}

/// The entries that the items give, in the items' order.
pub open spec fn collected_entries(items: Seq<Item>, feed_id: i32, mark: Timespec) -> Seq<EntryRecord>
    decreases items.len(),
{
    if items.len() == 0 {
        Seq::empty()
    } else {
        let before = collected_entries(items.drop_last(), feed_id, mark);
        match item_entry(items.last(), feed_id, mark) {
            Some(e) => before.push(e),
            None => before,
        }
    }
}

/// How many items carry a readable date.
pub open spec fn dated_count(items: Seq<Item>) -> nat
    decreases items.len(),
{
    if items.len() == 0 {
        0
    } else {
        dated_count(items.drop_last()) + if item_published(items.last()) is Some {
            1nat
        } else {
            0nat
        }
    }
}

/// How many items carry a readable date later than the mark.
pub open spec fn fresh_dated_count(items: Seq<Item>, mark: Timespec) -> nat
    decreases items.len(),
{
    if items.len() == 0 {
        0
    } else {
        fresh_dated_count(items.drop_last(), mark) + if item_published(items.last()) is Some
            && is_fresh(items.last(), mark) {
            1nat
        } else {
            0nat
        }
    }
}

/// The mark of a feed: when it was last brought up to date, else the epoch.
pub open spec fn feed_mark(augmented: Option<Timespec>) -> Timespec {
    match augmented {
        Some(t) => t,
        None => Timespec { sec: 0, nsec: 0 },
    }
}

/// How many of a channel's items were dated, and how many of those were new.
#[derive(Debug, Clone, Copy, PartialEq, Eq, Structural)]
pub struct FetchCounts {
    pub total: u32,
    pub new: u32,
}

fn collect_item(item: &Item, feed_id: i32, mark: Timespec) -> (r: (Option<Timespec>, Option<NewEntry>))
    ensures
        r.0 == item_published(*item),
        r.1.deep_view() == item_entry(*item, feed_id, mark),
{
    let published = match &item.pub_date {
        Some(d) => parse_rfc822_date(d.as_str()),
        None => None,
    };
    if let Some(p) = published {
        if p.le(&mark) {
            return (published, None);
        }
    }
    let url = match &item.link {
        Some(l) => parse_url(l.as_str()),
        None => None,
    };
    let key = match &url {
        Some(u) => Key::from_url(u),
        None => match &item.title {
            Some(t) => Key::from_uuid(new_v5_x500(t.as_str())),
            None => {
                return (published, None);
            },
        },
    };
    let entry = NewEntry {
        key,
        url,
        published,
        feed_id,
        title: purify_opt(&item.title),
        author: purify_opt(&item.author),
        description: purify_opt(&item.description),
        content: purify_opt(&item.content),
    };
    (published, Some(entry))
}

/// The language field of a channel, unified.
pub open spec fn channel_language(language: Option<String>) -> Option<Seq<char>> {
    match language {
        Some(l) => unified_language(l@),
        None => None,
    }
}

/// The logo URL of a channel's image.
pub open spec fn channel_logo(image: Option<Image>) -> Option<Seq<char>> {
    match image {
        Some(i) => url_parse_result(i.url@),
        None => None,
    }
}

/// Takes a fetched channel apart: the feed gets the channel's cleaned-up
/// title, description, language, logo and copyright, and every new item with
/// a key becomes an entry of the feed. The counts tell how many items were
/// dated and how many of those were later than the feed's mark; the feed's
/// schedule is left as it was.
pub fn disassemble_channel(feed: Feed, channel: Channel) -> (r: (Feed, Vec<NewEntry>, FetchCounts))
    requires
        channel.items@.len() <= u32::MAX,
        channel.language matches Some(l) ==> language_in_range(l@),
    ensures
        r.0.id == feed.id,
        r.0.key == feed.key,
        r.0.url == feed.url,
        r.0.interval == feed.interval,
        r.0.augmented == feed.augmented,
        r.0.title.deep_view() == purified(channel.title@),
        r.0.description.deep_view() == purified(channel.description@),
        r.0.language.deep_view() == channel_language(channel.language),
        r.0.logo.deep_view() == channel_logo(channel.image),
        r.0.copyright.deep_view() == purified_opt(channel.copyright.deep_view()),
        r.1.deep_view() == collected_entries(channel.items@, feed.id, feed_mark(feed.augmented)),
        r.2.total == dated_count(channel.items@),
        r.2.new == fresh_dated_count(channel.items@, feed_mark(feed.augmented)),
        r.2.new <= r.2.total,
{
    let mut feed = feed;
    let Channel { title, description, language, image, copyright, items } = channel;
    feed.title = purify_text(title);
    feed.description = purify_text(description);
    feed.language = match language {
        Some(l) => unify_language(l),
        None => None,
    };
    feed.logo = match image {
        Some(i) => Url::parse(i.url.as_str()),
        None => None,
    };
    feed.copyright = match copyright {
        Some(c) => purify_text(c),
        None => None,
    };
    let mark = match feed.augmented {
        Some(t) => t,
        None => Timespec::new(0, 0),
    };
    let mut total: u32 = 0;
    let mut new: u32 = 0;
    let mut entries: Vec<NewEntry> = Vec::new();
    let n = items.len();
    let mut i: usize = 0;
    while i < n
        invariant
            n == items@.len(),
            n <= u32::MAX,
            0 <= i <= n,
            mark == feed_mark(feed.augmented),
            entries.deep_view() == collected_entries(items@.take(i as int), feed.id, mark),
            total == dated_count(items@.take(i as int)),
            new == fresh_dated_count(items@.take(i as int), mark),
            new <= total <= i,
        decreases n - i,
    {
        let (published, entry) = collect_item(&items[i], feed.id, mark);
        assert(items@.take(i + 1).drop_last() =~= items@.take(i as int));
        assert(items@.take(i + 1).last() == items@[i as int]);
        if published.is_some() {
            total = total + 1;
            if !published.unwrap().le(&mark) {
                new = new + 1;
            }
        }
        match entry {
            Some(e) => {
                entries.push(e);
            },
            None => {},
        }
        i = i + 1;
        assert(entries.deep_view() =~= collected_entries(items@.take(i as int), feed.id, mark));
    }
    assert(items@.take(n as int) =~= items@);
    (feed, entries, FetchCounts { total, new })
}

/// The later of two optional points in time.
pub open spec fn later(a: Option<Timespec>, b: Option<Timespec>) -> Option<Timespec> {
    match (a, b) {
        (None, _) => b,
        (_, None) => a,
        (Some(p), Some(q)) => if time_le(p, q) {
            b
        } else {
            a
        },
    }
}

/// The latest publication time among entries, where any is dated.
pub open spec fn latest_published(entries: Seq<EntryRecord>) -> Option<Timespec>
    decreases entries.len(),
{
    if entries.len() == 0 {
        None
    } else {
        later(latest_published(entries.drop_last()), entries.last().published)
    }
}

/// The latest publication time among the entries, where any is dated.
pub fn latest_entry_time(entries: &Vec<NewEntry>) -> (r: Option<Timespec>)
    ensures
        r == latest_published(entries.deep_view()),
{
    let mut latest: Option<Timespec> = None;
    let n = entries.len();
    let mut i: usize = 0;
    while i < n
        invariant
            n == entries@.len(),
            0 <= i <= n,
            latest == latest_published(entries.deep_view().take(i as int)),
        decreases n - i,
    {
        let published = entries[i].published;
        assert(entries.deep_view().take(i + 1).drop_last() =~= entries.deep_view().take(i as int));
        assert(entries.deep_view()[i as int].published == published);
        latest = match (latest, published) {
            (None, _) => published,
            (_, None) => latest,
            (Some(p), Some(q)) => if p.le(&q) {
                published
            } else {
                latest
            },
        };
        i = i + 1;
    }
    assert(entries.deep_view().take(n as int) =~= entries.deep_view());
    latest
}

/// The feed's mark once collected entries are stored: the latest time among
/// them, else the mark it had.
pub open spec fn next_augmented(augmented: Option<Timespec>, entries: Seq<EntryRecord>) -> Option<Timespec> {
    match latest_published(entries) {
        Some(m) => Some(m),
        None => augmented,
    }
}

/// Moves the feed's mark to the latest publication time among the entries
/// that were stored; without a dated entry the mark stays.
pub fn record_latest(feed: &mut Feed, entries: &Vec<NewEntry>)
    ensures
        final(feed).augmented == next_augmented(old(feed).augmented, entries.deep_view()),
        same_feed_but_schedule(*final(feed), *old(feed)),
        final(feed).interval == old(feed).interval,
{
    if let Some(latest) = latest_entry_time(entries) {
        feed.augmented = Some(latest);
    }
}

proof fn lemma_collected_source(items: Seq<Item>, feed_id: i32, mark: Timespec, j: int)
    requires
        0 <= j < collected_entries(items, feed_id, mark).len(),
    ensures
        exists|k: int|
            0 <= k < items.len() && #[trigger] item_entry(items[k], feed_id, mark) == Some(
                collected_entries(items, feed_id, mark)[j],
            ),
    decreases items.len(),
{
    let before = collected_entries(items.drop_last(), feed_id, mark);
    if j < before.len() {
        lemma_collected_source(items.drop_last(), feed_id, mark, j);
        let k = choose|k: int|
            0 <= k < items.drop_last().len() && #[trigger] item_entry(items.drop_last()[k], feed_id, mark)
                == Some(before[j]);
        assert(items[k] == items.drop_last()[k]);
    } else {
        assert(item_entry(items[items.len() - 1], feed_id, mark) == Some(
            collected_entries(items, feed_id, mark)[j],
        ));
    }
}

proof fn lemma_collected_member(items: Seq<Item>, feed_id: i32, mark: Timespec, k: int)
    requires
        0 <= k < items.len(),
        item_entry(items[k], feed_id, mark) is Some,
    ensures
        exists|j: int|
            0 <= j < collected_entries(items, feed_id, mark).len() && Some(
                #[trigger] collected_entries(items, feed_id, mark)[j],
            ) == item_entry(items[k], feed_id, mark),
    decreases items.len(),
{
    let all = collected_entries(items, feed_id, mark);
    if k < items.len() - 1 {
        lemma_collected_member(items.drop_last(), feed_id, mark, k);
        assert(items.drop_last()[k] == items[k]);
        let before = collected_entries(items.drop_last(), feed_id, mark);
        let j = choose|j: int|
            0 <= j < before.len() && Some(#[trigger] before[j]) == item_entry(
                items.drop_last()[k],
                feed_id,
                mark,
            );
        assert(all[j] == before[j]);
    } else {
        assert(all[all.len() - 1] == item_entry(items[k], feed_id, mark)->0);
    }
}

proof fn lemma_latest_bounds(s: Seq<EntryRecord>)
    ensures
        forall|j: int|
            0 <= j < s.len() && #[trigger] s[j].published is Some ==> latest_published(s) is Some
                && time_le(s[j].published->0, latest_published(s)->0),
        latest_published(s) is Some ==> exists|j: int|
            0 <= j < s.len() && #[trigger] s[j].published == latest_published(s),
    decreases s.len(),
{
    if s.len() > 0 {
        let t = s.drop_last();
        lemma_latest_bounds(t);
        assert forall|j: int|
            0 <= j < s.len() && #[trigger] s[j].published is Some implies latest_published(s) is Some
                && time_le(s[j].published->0, latest_published(s)->0) by {
            if j < s.len() - 1 {
                assert(s[j] == t[j]);
            }
        }
        if latest_published(s) is Some {
            if latest_published(s) == s.last().published {
                assert(s[s.len() - 1].published == latest_published(s));
            } else {
                let j = choose|j: int| 0 <= j < t.len() && #[trigger] t[j].published == latest_published(t);
                assert(s[j] == t[j]);
            }
        }
    }
}

/// Collecting a channel again, once the feed's mark has been moved to the
/// latest entry that the previous collection stored, yields no dated entry:
/// a dated item is collected at most once.
pub proof fn lemma_recollection_has_no_dated_entry(items: Seq<Item>, feed_id: i32, augmented: Option<Timespec>)
    ensures
        ({
            let first = collected_entries(items, feed_id, feed_mark(augmented));
            let again = collected_entries(
                items,
                feed_id,
                feed_mark(next_augmented(augmented, first)),
            );
            forall|j: int| 0 <= j < again.len() ==> (#[trigger] again[j]).published is None
        }),
{
    let mark = feed_mark(augmented);
    let first = collected_entries(items, feed_id, mark);
    let mark2 = feed_mark(next_augmented(augmented, first));
    let again = collected_entries(items, feed_id, mark2);
    lemma_latest_bounds(first);
    assert forall|j: int| 0 <= j < again.len() implies (#[trigger] again[j]).published is None by {
        if again[j].published is Some {
            let p = again[j].published->0;
            lemma_collected_source(items, feed_id, mark2, j);
            let k = choose|k: int|
                0 <= k < items.len() && #[trigger] item_entry(items[k], feed_id, mark2) == Some(again[j]);
            assert(item_published(items[k]) == Some(p));
            assert(!time_le(p, mark2));
            if let Some(m) = latest_published(first) {
                let j0 = choose|j0: int| 0 <= j0 < first.len() && #[trigger] first[j0].published == latest_published(first);
                lemma_collected_source(items, feed_id, mark, j0);
                let k0 = choose|k0: int|
                    0 <= k0 < items.len() && #[trigger] item_entry(items[k0], feed_id, mark) == Some(first[j0]);
                assert(item_published(items[k0]) == Some(m));
                assert(!time_le(m, mark));
            }
            assert(is_fresh(items[k], mark));
            assert(item_entry(items[k], feed_id, mark) is Some);
            lemma_collected_member(items, feed_id, mark, k);
            let j1 = choose|j1: int|
                0 <= j1 < first.len() && Some(#[trigger] first[j1]) == item_entry(items[k], feed_id, mark);
            assert(first[j1].published == Some(p));
            assert(false);
        }
    }
}

/// Every collected entry belongs to the feed it was collected for, and a
/// dated one is later than the feed's mark; no item gives more than one entry.
pub proof fn lemma_collected_entries_are_new(items: Seq<Item>, feed_id: i32, mark: Timespec)
    ensures
        collected_entries(items, feed_id, mark).len() <= items.len(),
        forall|j: int|
            0 <= j < collected_entries(items, feed_id, mark).len() ==> {
                let e = #[trigger] collected_entries(items, feed_id, mark)[j];
                &&& e.feed_id == feed_id
                &&& e.published matches Some(p) ==> !time_le(p, mark)
            },
    decreases items.len(),
{
    if items.len() > 0 {
        lemma_collected_entries_are_new(items.drop_last(), feed_id, mark);
        let before = collected_entries(items.drop_last(), feed_id, mark);
        let all = collected_entries(items, feed_id, mark);
        assert forall|j: int| 0 <= j < all.len() implies {
            let e = #[trigger] all[j];
            &&& e.feed_id == feed_id
            &&& e.published matches Some(p) ==> !time_le(p, mark)
        } by {
            if j < before.len() {
                assert(all[j] == before[j]);
            }
        }
    }
}

/// A text field of an entry as made of the item's field: the purified text,
/// and nothing where the item has none.
pub open spec fn purified_field(out: Option<Seq<char>>, src: Option<String>) -> bool {
    match src {
        Some(t) => out == purified(t@),
        None => out is None,
    }
}

/// Every collected entry is made of one of the channel's items, for the
/// feed it was collected for: its key is the item's URL, else the UUID of the
/// item's raw title; its URL and publication time are the item's; and its
/// title, author, description and content are the item's, purified.
pub proof fn lemma_collected_entries_keep_item_fields(items: Seq<Item>, feed_id: i32, mark: Timespec)
    ensures
        forall|j: int|
            0 <= j < collected_entries(items, feed_id, mark).len() ==> exists|k: int|
                {
                    let e = #[trigger] collected_entries(items, feed_id, mark)[j];
                    let it = #[trigger] items[k];
                    &&& 0 <= k < items.len()
                    &&& e.feed_id == feed_id
                    &&& e.url == item_url(it)
                    &&& e.published == item_published(it)
                    &&& e.key == match item_url(it) {
                        Some(u) => u,
                        None => hyphenated(uuid_v5_x500(it.title->0@)),
                    }
                    &&& (item_url(it) is None ==> it.title is Some)
                    &&& purified_field(e.title, it.title)
                    &&& purified_field(e.author, it.author)
                    &&& purified_field(e.description, it.description)
                    &&& purified_field(e.content, it.content)
                },
{
    assert forall|j: int| 0 <= j < collected_entries(items, feed_id, mark).len() implies exists|k: int|
        {
            let e = #[trigger] collected_entries(items, feed_id, mark)[j];
            let it = #[trigger] items[k];
            &&& 0 <= k < items.len()
            &&& e.feed_id == feed_id
            &&& e.url == item_url(it)
            &&& e.published == item_published(it)
            &&& e.key == match item_url(it) {
                Some(u) => u,
                None => hyphenated(uuid_v5_x500(it.title->0@)),
            }
            &&& (item_url(it) is None ==> it.title is Some)
            &&& purified_field(e.title, it.title)
            &&& purified_field(e.author, it.author)
            &&& purified_field(e.description, it.description)
            &&& purified_field(e.content, it.content)
        } by {
        lemma_collected_source(items, feed_id, mark, j);
        let k = choose|k: int|
            0 <= k < items.len() && #[trigger] item_entry(items[k], feed_id, mark) == Some(
                collected_entries(items, feed_id, mark)[j],
            );
        let it = items[k];
        assert(it.title.deep_view() == match it.title { Some(t) => Some(t@), None => None::<Seq<char>> });
        assert(it.author.deep_view() == match it.author { Some(t) => Some(t@), None => None::<Seq<char>> });
        assert(it.description.deep_view() == match it.description { Some(t) => Some(t@), None => None::<Seq<char>> });
        assert(it.content.deep_view() == match it.content { Some(t) => Some(t@), None => None::<Seq<char>> });
    }
}

/// Of the dated items, those later than the mark are at most all of them,
/// and the dated ones at most all items.
pub proof fn lemma_counts_bounded(items: Seq<Item>, mark: Timespec)
    ensures
        fresh_dated_count(items, mark) <= dated_count(items) <= items.len(),
    decreases items.len(),
{
    if items.len() > 0 {
        lemma_counts_bounded(items.drop_last(), mark);
    }
}

/// The readable part of a web page, as HTML, that the `readability` crate
/// extracts from the page's text and its URL, or nothing where it fails.
pub uninterp spec fn readable_content(document: Seq<char>, url: Seq<char>) -> Option<Seq<char>>;

/// `readability::extractor::extract` on the page's bytes and its URL (read
/// back into a `url::Url`), taken by the extracted HTML content; errors are
/// dropped. The result is named: it depends on the page and the URL alone.
#[verifier::external_body]
fn extract_readable(document: &str, url: &Url) -> (r: Option<String>)
    ensures
        r.deep_view() == readable_content(document@, url@),
{
    let base = match url::Url::parse(url.as_str()) {
        Ok(base) => base,
        Err(_) => return None,
    };
    match readability::extractor::extract(&mut document.as_bytes(), &base) {
        Ok(product) => Some(product.content),
        Err(_) => None,
    }
}

/// Whether the page of an entry is to be downloaded: it has a URL.
pub fn needs_document(entry: &NewEntry) -> (r: bool)
    ensures
        r == entry.url is Some,
{
    entry.url.is_some()
}

/// The entry once its page was downloaded, or not: an entry whose page could
/// not be fetched is dropped; otherwise its content becomes the readable part
/// of the page, and stays as it was where nothing readable was found.
pub open spec fn with_document(entry: EntryRecord, document: Option<Seq<char>>) -> Option<EntryRecord> {
    match document {
        None => None,
        Some(d) => Some(
            EntryRecord {
                content: match readable_content(d, entry.url->0) {
                    Some(c) => Some(c),
                    None => entry.content,
                },
                ..entry
            },
        ),
    }
}

/// Puts the readable part of an entry's downloaded page into the entry;
/// `None` for `document` means the download failed.
pub fn attach_document(entry: NewEntry, document: Option<String>) -> (r: Option<NewEntry>)
    requires
        entry.url is Some,
    ensures
        r.deep_view() == with_document(entry@, document.deep_view()),
{
    match document {
        None => None,
        Some(d) => {
            let mut entry = entry;
            let readable = match &entry.url {
                Some(u) => extract_readable(d.as_str(), u),
                None => None,
            };
            if let Some(c) = readable {
                entry.content = Some(c);
            }
            Some(entry)
        },
    }
}

/// The entries kept once the pages were downloaded: an entry without a URL
/// stays as it is; one with a URL goes by its page's download (`None` where
/// it failed), as `with_document` says; the order stays.
pub open spec fn kept_entries(entries: Seq<EntryRecord>, documents: Seq<Option<Seq<char>>>) -> Seq<EntryRecord>
    decreases entries.len(),
{
    if entries.len() == 0 {
        Seq::empty()
    } else {
        let before = kept_entries(entries.drop_last(), documents);
        let e = entries.last();
        if e.url is None {
            before.push(e)
        } else {
            match with_document(e, documents[entries.len() - 1]) {
                Some(k) => before.push(k),
                None => before,
            }
        }
    }
}

/// Puts each entry's downloaded page into it: `documents[i]` is the
/// download of entry `i`'s page, not read for an entry without a URL.
pub fn keep_downloaded(entries: Vec<NewEntry>, documents: &Vec<Option<String>>) -> (r: Vec<NewEntry>)
    requires
        documents@.len() == entries@.len(),
    ensures
        r.deep_view() == kept_entries(entries.deep_view(), documents.deep_view()),
{
    let ghost all = entries@;
    let ghost records = entries.deep_view();
    let mut kept: Vec<NewEntry> = Vec::new();
    let n = entries.len();
    let mut i: usize = 0;
    for e in it: entries.into_iter()
        invariant
            it.seq() == all,
            all.len() == n,
            i == it.index(),
            records == all.map_values(|x: NewEntry| x@),
            documents@.len() == all.len(),
            kept.deep_view() == kept_entries(records.take(it.index() as int), documents.deep_view()),
    {
        assert(i < all.len());
        let ghost taken = records.take(i + 1);
        assert(taken.drop_last() =~= records.take(i as int));
        assert(taken.last() == e@);
        assert(documents.deep_view()[i as int] == documents@[i as int].deep_view());
        if needs_document(&e) {
            let document = match &documents[i] {
                Some(d) => Some(d.clone()),
                None => None,
            };
            match attach_document(e, document) {
                Some(k) => kept.push(k),
                None => {},
            }
        } else {
            kept.push(e);
        }
        assert(kept.deep_view() =~= kept_entries(taken, documents.deep_view()));
        i = i + 1;
    }
    assert(records.take(all.len() as int) =~= records);
    kept
}

} // verus!
