use greeder::ipc::decode_feed_id;
use greeder::models::{Entry, Feed, NewUser, Subscription, User, UserEntry, UserFeed};
use greeder::server::{
    broken_db_reply, checked_cookie_uid, cookie_uid, entry_page, entry_page_or_error, feed_page_or_error, extend_user_feeds, feed_page,
    feed_to_add, feed_to_unsubscribe, feeds_page, format_date, guard_for, known_user, ok_reply,
    fresh_user, registered_user, reply_to_feed_insert, reply_to_feed_lookup, reply_to_unsubscribe,
    subs_reply, subscribe_to_new_feed, subscribed_feed_ids, subscription_to_remove, unsub_key,
    DbError, ErrorContext, PostUrl, UnsubFeed, UserError,
};
use greeder::types::{Key, Timespec, Url};

fn feed(id: i32, link: &str) -> Feed {
    let url = Url::parse(link).unwrap();
    Feed {
        id,
        key: Key::from_url(&url),
        url,
        title: Some("Title".to_string()),
        description: None,
        language: Some("en".to_string()),
        logo: None,
        copyright: None,
        interval: Some(3600),
        augmented: None,
    }
}

fn entry(published: Option<Timespec>) -> Entry {
    Entry {
        id: 3,
        key: Key::from_raw("k".to_string()),
        feed_id: 1,
        url: None,
        title: Some("t".to_string()),
        author: None,
        description: None,
        content: Some("c".to_string()),
        published,
    }
}

const USER: User = User { id: 5, uid: 0x550e8400e29b41d4a716446655440000 };

#[test]
fn format_date_appends_pts() {
    assert_eq!(format_date(Some("12")).unwrap(), "12 pts");
    assert_eq!(format_date(Some("")).unwrap(), " pts");
    assert_eq!(format_date(None).unwrap_err().desc, "Param 0 is required for format helper.");
}

#[test]
fn subscription_holds_user_and_feed() {
    let s = Subscription { user_id: 1, feed_id: 2 };
    assert_eq!(s, Subscription { user_id: 1, feed_id: 2 });
    assert_ne!(s, Subscription { user_id: 2, feed_id: 1 });
}

#[test]
fn adding_a_feed_checks_the_url() {
    let e = feed_to_add(&PostUrl { url: "nope".to_string() }).unwrap_err();
    assert_eq!((e.code, e.reason), (400, "Bad url"));
    let f = feed_to_add(&PostUrl { url: "http://example.com/rss".to_string() }).unwrap();
    assert_eq!(f.url.as_str(), "http://example.com/rss");
    assert_eq!(f.key.as_str(), "http://example.com/rss");
}

#[test]
fn adding_a_known_feed_answers_ok() {
    let r = reply_to_feed_lookup(Ok(1)).unwrap();
    assert_eq!((r.code, r.reason), (200, "OK"));
    assert!(reply_to_feed_lookup(Ok(0)).is_none());
    let r = reply_to_feed_lookup(Err(DbError)).unwrap();
    assert_eq!((r.code, r.reason), (500, "DB transaction failed"));
}

#[test]
fn a_new_feed_is_announced_and_subscribed() {
    let (datagram, sub) = subscribe_to_new_feed(Ok(77), &USER).unwrap();
    assert_eq!(datagram, b"77".to_vec());
    assert_eq!(decode_feed_id(&datagram), Ok(77));
    assert_eq!(sub, Subscription { user_id: 5, feed_id: 77 });
    let e = subscribe_to_new_feed(Err(DbError), &USER).unwrap_err();
    assert_eq!((e.code, e.reason), (500, "DB transaction failed"));
    let r = reply_to_feed_insert(Ok(1));
    assert_eq!((r.code, r.reason), (200, "Successfully added and subscribed"));
    let r = reply_to_feed_insert(Err(DbError));
    assert_eq!((r.code, r.reason), (500, "Addition failed"));
    assert_eq!(ok_reply().code, 200);
}

#[test]
fn feed_converts_to_user_feed() {
    let f = feed(9, "http://example.com/x");
    let u: UserFeed = f.into();
    assert_eq!(u.key.as_str(), "http://example.com/x");
    assert_eq!(u.url.as_str(), "http://example.com/x");
    assert_eq!(u.title, Some("Title".to_string()));
    assert_eq!(u.language, Some("en".to_string()));
}

#[test]
fn entry_converts_to_user_entry() {
    let u: UserEntry = entry(Some(Timespec { sec: 100, nsec: 5 })).into();
    assert_eq!(u.published, Some(100));
    assert_eq!(u.title, Some("t".to_string()));
    assert_eq!(u.content, Some("c".to_string()));
    let u: UserEntry = entry(Some(Timespec { sec: 100, nsec: 2_000_000_000 })).into();
    assert_eq!(u.published, Some(102));
    let u: UserEntry = entry(Some(Timespec { sec: 100, nsec: -1_000_000_000 })).into();
    assert_eq!(u.published, Some(99));
    let u: UserEntry = entry(None).into();
    assert_eq!(u.published, None);
}

#[test]
fn pages_show_the_user_and_converted_records() {
    let page = feed_page(&USER, feed(1, "http://a.example/"), vec![entry(None), entry(Some(Timespec { sec: 1, nsec: 0 }))]);
    assert_eq!(page.uid, "550e8400-e29b-41d4-a716-446655440000");
    assert_eq!(page.entries.len(), 2);
    assert_eq!(page.entries[1].published, Some(1));
    let page = entry_page(&USER, feed(1, "http://a.example/"), entry(None));
    assert_eq!(page.entry.key.as_str(), "k");
    assert_eq!(page.feed.url.as_str(), "http://a.example/");
}

#[test]
fn subscribed_feeds_are_collected_in_order() {
    let subs = vec![Subscription { user_id: 5, feed_id: 2 }, Subscription { user_id: 5, feed_id: 1 }];
    assert_eq!(subscribed_feed_ids(&subs), vec![2, 1]);
    let mut feeds = Vec::new();
    extend_user_feeds(&mut feeds, vec![feed(2, "http://b.example/")]);
    extend_user_feeds(&mut feeds, vec![]);
    extend_user_feeds(&mut feeds, vec![feed(1, "http://a.example/")]);
    let page = feeds_page(&USER, feeds);
    let urls: Vec<&str> = page.feeds.iter().map(|f| f.url.as_str()).collect();
    assert_eq!(urls, vec!["http://b.example/", "http://a.example/"]);
    assert_eq!(ErrorContext::new("Cant fetch feeds").msg, "Cant fetch feeds");
}

#[test]
fn subs_reply_answers_list_or_error() {
    let (r, subs) = subs_reply(Ok(vec![UserFeed::from(feed(1, "http://a.example/"))]));
    assert_eq!((r.code, r.reason, subs.subs.len()), (200, "OK", 1));
    let (r, subs) = subs_reply(Err(DbError));
    assert_eq!((r.code, r.reason, subs.subs.len()), (500, "DB Error", 0));
}

#[test]
fn unsubscribing_walks_through_lookups() {
    assert_eq!(unsub_key(&UnsubFeed { key: "k1".to_string() }).as_str(), "k1");
    let e = feed_to_unsubscribe(Err(DbError)).unwrap_err();
    assert_eq!((e.code, e.reason), (401, "No such feed"));
    assert_eq!(feed_to_unsubscribe(Ok(feed(4, "http://a.example/"))).unwrap().id, 4);
    let e = subscription_to_remove(Err(DbError)).unwrap_err();
    assert_eq!((e.code, e.reason), (401, "No sub to unsub"));
    let s = Subscription { user_id: 1, feed_id: 4 };
    assert_eq!(subscription_to_remove(Ok(s)).unwrap(), s);
    let r = reply_to_unsubscribe(Ok(1));
    assert_eq!((r.code, r.reason), (200, "OK"));
    let r = reply_to_unsubscribe(Err(DbError));
    assert_eq!((r.code, r.reason), (500, "DB Error"));
}

#[test]
fn the_user_guard_reads_the_cookie() {
    let e = cookie_uid(None).unwrap_err();
    assert_eq!((e.code, e.reason), (401, "Unauthorized"));
    assert_eq!(cookie_uid(Some("550e8400-e29b-41d4-a716-446655440000")).unwrap(), USER.uid);
    assert!(checked_cookie_uid(Some("garbage")).is_none());
    assert_eq!(checked_cookie_uid(Some("550e8400e29b41d4a716446655440000")).unwrap().unwrap(), USER.uid);
    let e = guard_for(Err(DbError)).unwrap_err();
    assert_eq!((e.code, e.reason), (401, "User doesnt exist"));
    let g = guard_for(Ok(USER)).unwrap();
    assert_eq!(g.id, 5);
    let r = broken_db_reply();
    assert_eq!((r.code, r.reason), (500, "Broken DB interaction"));
}

#[test]
fn users_are_found_or_registered() {
    assert_eq!(known_user(Ok(USER)), Ok(USER));
    assert_eq!(known_user(Err(DbError)), Err(UserError::CantFetch));
    assert_eq!(UserError::CantFetch.message(), "Cant fetch user from DB");
    let new_user = NewUser { uid: USER.uid };
    let (u, cookie) = registered_user(Ok(USER), new_user).unwrap();
    assert_eq!(u, USER);
    assert_eq!(cookie.name, "uuid");
    assert_eq!(cookie.value, "550e8400-e29b-41d4-a716-446655440000");
    assert_eq!(registered_user(Err(DbError), new_user).unwrap_err(), UserError::CantSave);
    assert_eq!(UserError::CantSave.message(), "Cant save new user in DB");
}

#[test]
fn fresh_users_get_version_4_uuids() {
    for _ in 0..8 {
        let uid = uuid::Uuid::from_u128(fresh_user().uid);
        assert_eq!(uid.get_version_num(), 4);
        assert_eq!(uid.get_variant(), uuid::Variant::RFC4122);
    }
}

#[test]
fn pages_or_errors_follow_the_lookups() {
    assert!(feed_page_or_error(&USER, Err(DbError), Ok(vec![])).is_none());
    assert!(feed_page_or_error(&USER, Ok(feed(1, "http://a.example/")), Err(DbError)).is_none());
    let page = feed_page_or_error(&USER, Ok(feed(1, "http://a.example/")), Ok(vec![entry(None)])).unwrap();
    assert_eq!(page.entries.len(), 1);
    assert!(entry_page_or_error(&USER, Err(DbError), Ok(feed(1, "http://a.example/"))).is_none());
    assert!(entry_page_or_error(&USER, Ok(entry(None)), Err(DbError)).is_none());
    assert_eq!(entry_page_or_error(&USER, Ok(entry(None)), Ok(feed(1, "http://a.example/"))).unwrap().entry.key.as_str(), "k");
}
