use greeder::models::{Subscription, User};
use greeder::server::{
    add_feeds_for_page, page_user, subscriptions_for_page, DbError, ListPage, PageError, PostUrl,
    UnsubFeed, UserError,
};
use greeder::store::{add_feed, get_or_create_user, unsubscribe, Store};

const USER: User = User { id: 1, uid: 7 };

fn post(url: &str) -> PostUrl {
    PostUrl { url: url.to_string() }
}

#[test]
fn adding_a_feed_stores_it_and_subscribes() {
    let mut store = Store::new();
    let (reply, datagram) = add_feed(&mut store, &post("http://example.com/rss"), &USER);
    assert_eq!((reply.code, reply.reason), (200, "OK"));
    assert_eq!(datagram, Some(b"1".to_vec()));
    assert_eq!(store.feeds.len(), 1);
    assert_eq!(store.feeds[0].id, 1);
    assert_eq!(store.feeds[0].key.as_str(), "http://example.com/rss");
    assert_eq!(store.subscriptions, vec![Subscription { user_id: 1, feed_id: 1 }]);
    assert_eq!(store.next_feed_id, 2);
}

#[test]
fn adding_the_same_feed_twice_changes_nothing() {
    let mut store = Store::new();
    add_feed(&mut store, &post("http://example.com/rss"), &USER);
    let (reply, datagram) = add_feed(&mut store, &post("http://example.com/rss"), &USER);
    assert_eq!((reply.code, reply.reason), (200, "OK"));
    assert_eq!(datagram, None);
    assert_eq!(store.feeds.len(), 1);
    assert_eq!(store.subscriptions.len(), 1);
    assert_eq!(store.next_feed_id, 2);
}

#[test]
fn adding_a_bad_url_is_refused() {
    let mut store = Store::new();
    let (reply, datagram) = add_feed(&mut store, &post("no url"), &USER);
    assert_eq!((reply.code, reply.reason), (400, "Bad url"));
    assert!(datagram.is_none());
    assert!(store.feeds.is_empty());
}

#[test]
fn adding_fails_when_ids_run_out() {
    let mut store = Store::new();
    store.next_feed_id = i32::MAX;
    let (reply, datagram) = add_feed(&mut store, &post("http://example.com/rss"), &USER);
    assert_eq!((reply.code, reply.reason), (500, "DB transaction failed"));
    assert!(datagram.is_none());
    assert!(store.feeds.is_empty());
}

#[test]
fn a_registered_user_is_found_again_by_the_cookie() {
    let mut store = Store::new();
    let (user, cookie) = get_or_create_user(&mut store, None).unwrap().unwrap();
    let cookie = cookie.unwrap();
    assert_eq!(cookie.name, "uuid");
    assert_eq!(cookie.value, uuid::Uuid::from_u128(user.uid).hyphenated().to_string());
    assert_eq!(user.id, 1);
    assert_eq!(store.users.len(), 1);
    let (again, no_cookie) = get_or_create_user(&mut store, Some(&cookie.value)).unwrap().unwrap();
    assert_eq!(again, user);
    assert!(no_cookie.is_none());
    assert_eq!(store.users.len(), 1);
}

#[test]
fn unknown_and_bad_cookies() {
    let mut store = Store::new();
    let r = get_or_create_user(&mut store, Some("550e8400-e29b-41d4-a716-446655440000")).unwrap();
    assert_eq!(r.unwrap_err(), UserError::CantFetch);
    assert!(get_or_create_user(&mut store, Some("nope")).is_none());
    assert!(store.users.is_empty());
}

#[test]
fn unsubscribing_twice_finds_no_subscription() {
    let mut store = Store::new();
    add_feed(&mut store, &post("http://example.com/rss"), &USER);
    let request = UnsubFeed { key: "http://example.com/rss".to_string() };
    let reply = unsubscribe(&mut store, &USER, &request);
    assert_eq!((reply.code, reply.reason), (200, "OK"));
    assert!(store.subscriptions.is_empty());
    let reply = unsubscribe(&mut store, &USER, &request);
    assert_eq!((reply.code, reply.reason), (401, "No sub to unsub"));
    let reply = unsubscribe(&mut store, &USER, &UnsubFeed { key: "other".to_string() });
    assert_eq!((reply.code, reply.reason), (401, "No such feed"));
    assert_eq!(store.feeds.len(), 1);
}

#[test]
fn page_errors_carry_the_page_messages() {
    assert_eq!(page_user(Err(UserError::CantSave)).unwrap_err().message(), "Cant fetch user");
    let e = subscriptions_for_page(ListPage::Index, Err(DbError)).unwrap_err();
    assert_eq!(e, PageError::CantFetchSubscriptions(ListPage::Index));
    assert_eq!(e.message(), "Cant fetch subscriptions from DB");
    let e = subscriptions_for_page(ListPage::Management, Err(DbError)).unwrap_err();
    assert_eq!(e.message(), "Cant fetch subscriptions");
    let mut feeds = Vec::new();
    let e = add_feeds_for_page(ListPage::Index, &mut feeds, Err(DbError)).unwrap_err();
    assert_eq!(e.message(), "Cant fetch feeds from DB");
    let e = add_feeds_for_page(ListPage::Management, &mut feeds, Err(DbError)).unwrap_err();
    assert_eq!(e.message(), "Cant fetch feeds");
    assert!(feeds.is_empty());
    let ids = subscriptions_for_page(
        ListPage::Index,
        Ok(vec![Subscription { user_id: 1, feed_id: 3 }, Subscription { user_id: 1, feed_id: 2 }]),
    )
    .unwrap();
    assert_eq!(ids, vec![3, 2]);
}

fn stored_entry(store: &mut Store, key: &str, feed_id: i32) {
    let url = greeder::types::Url::parse("http://example.com/e").unwrap();
    let entry = greeder::collect::NewEntry {
        key: greeder::types::Key::from_raw(key.to_string()),
        url: Some(url),
        published: None,
        feed_id,
        title: Some("t".to_string()),
        author: None,
        description: None,
        content: None,
    };
    let feed = store.first_feed_by_id(feed_id).unwrap();
    assert_eq!(store.save_visit(&feed, vec![entry]), Ok(true));
}

#[test]
fn registering_fails_only_when_ids_run_out() {
    let mut store = Store::new();
    store.next_user_id = i32::MAX;
    assert_eq!(get_or_create_user(&mut store, None).unwrap().unwrap_err(), UserError::CantSave);
    assert!(store.users.is_empty());
}

#[test]
fn stored_visits_update_the_feed_and_number_entries() {
    let mut store = Store::new();
    add_feed(&mut store, &post("http://example.com/rss"), &USER);
    let mut feed = store.first_feed_by_id(1).unwrap();
    feed.title = Some("News".to_string());
    feed.interval = Some(7200);
    assert_eq!(store.save_visit(&feed, Vec::new()), Ok(true));
    assert_eq!(store.feeds[0].title, Some("News".to_string()));
    assert_eq!(store.feeds[0].interval, Some(7200));
    stored_entry(&mut store, "e1", 1);
    stored_entry(&mut store, "e2", 1);
    assert_eq!(store.entries.len(), 2);
    assert_eq!(store.entries[1].id, 2);
    assert_eq!(store.next_entry_id, 3);
    assert_eq!(store.entries_of(1).len(), 2);
    assert!(store.entries_of(2).is_empty());
    assert_eq!(store.entry_by_key(&greeder::types::Key::from_raw("e2".to_string())).unwrap().id, 2);
    assert!(store.entry_by_key(&greeder::types::Key::from_raw("nope".to_string())).is_err());
    feed.id = 99;
    assert_eq!(store.save_visit(&feed, Vec::new()), Ok(false));
    store.next_entry_id = i64::MAX;
    let before = store.entries.len();
    let url = greeder::types::Url::parse("http://example.com/x").unwrap();
    let entry = greeder::collect::NewEntry {
        key: greeder::types::Key::from_url(&url),
        url: Some(url),
        published: None,
        feed_id: 1,
        title: None,
        author: None,
        description: None,
        content: None,
    };
    assert_eq!(store.save_visit(&feed, vec![entry]), Err(DbError));
    assert_eq!(store.entries.len(), before);
}

#[test]
fn store_queries_follow_the_rows() {
    let mut store = Store::new();
    add_feed(&mut store, &post("http://a.example/"), &USER);
    add_feed(&mut store, &post("http://b.example/"), &USER);
    assert_eq!(store.feeds_by_id(2).len(), 1);
    assert!(store.feeds_by_id(3).is_empty());
    assert_eq!(store.subscriptions_of(1).len(), 2);
    assert!(store.subscriptions_of(2).is_empty());
    assert!(store.first_feed_by_id(3).is_err());
}
