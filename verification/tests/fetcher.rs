use greeder::collect::{
    attach_document, disassemble_channel, keep_downloaded, latest_entry_time, needs_document, parse_rfc822_date,
    parse_url, record_latest, Channel, FetchCounts, Image, Item, NewEntry,
};
use greeder::models::Feed;
use greeder::schedule::{
    estimate_interval, first_visit_delay, prompt_visit_delay, record_failed_fetch,
    schedule_next_visit, visit_delay, MAX_INTERVAL, MIN_INTERVAL,
};
use greeder::text::{purify_text, unify_language};
use greeder::types::{Key, Timespec, Url};

const PROMPTNESS: f32 = 0.5;

/// The floating-point weighing that the fetcher does before the library
/// settles the wait.
fn weighted(prev: u32, total: u32, new: u32) -> u32 {
    if total == 0 {
        return 0;
    }
    let staleness = (total - new) as f32 / total as f32;
    let delta = staleness - PROMPTNESS;
    let estimated = prev as f32 * (1. + delta / PROMPTNESS);
    let trust = (total as f32 / 30.).min(1.);
    let next = prev as f32 * (1. - trust) + estimated * trust;
    next as u32
}

fn estimate(prev: u32, total: u32, new: u32) -> u32 {
    estimate_interval(prev, total, new, weighted(prev, total, new))
}

#[test]
fn it_estimates_interval() {
    assert_eq!(estimate(MIN_INTERVAL, 30, 0), (MIN_INTERVAL as f32 / PROMPTNESS) as u32);

    // Keypoints.
    let some_prev = MIN_INTERVAL + 2048;
    assert_eq!(estimate(some_prev, 10000, ((1. - PROMPTNESS) * 10000.) as u32), some_prev);
    assert_eq!(estimate(MIN_INTERVAL, 30, 30), MIN_INTERVAL);
    assert_eq!(estimate(MIN_INTERVAL, 1, 1), MIN_INTERVAL);
    assert_eq!(estimate(MAX_INTERVAL, 30, 0), MAX_INTERVAL);
    assert_eq!(estimate(MAX_INTERVAL, 1, 0), MAX_INTERVAL);
    assert_eq!(estimate(MIN_INTERVAL + 42, 0, 0), 2 * MIN_INTERVAL + 42);
    assert_eq!(estimate(0, 30, 30), MIN_INTERVAL);
    assert_eq!(estimate(0, 30, 0), MIN_INTERVAL);
    assert_eq!(estimate(0, 1, 0), MIN_INTERVAL);
    assert_eq!(estimate(0, 0, 0), MIN_INTERVAL);
}

#[test]
fn interval_keeps_estimate_within_bounds() {
    assert_eq!(estimate_interval(7200, 5, 2, 5000), 5000);
    assert_eq!(estimate_interval(7200, 5, 2, 10), MIN_INTERVAL);
    assert_eq!(estimate_interval(7200, 5, 2, 1_000_000), MAX_INTERVAL);
    // Nothing dated: one hour more, at most a day; the estimate is not read.
    assert_eq!(estimate_interval(7200, 0, 0, 1), 10800);
    assert_eq!(estimate_interval(MAX_INTERVAL - 1, 0, 0, 1), MAX_INTERVAL);
}

#[test]
fn failed_fetches_back_off_hour_by_hour() {
    let mut feed = sample_feed(Some(0), None);
    let mut waits = Vec::new();
    for _ in 0..26 {
        record_failed_fetch(&mut feed);
        waits.push(feed.interval.unwrap());
    }
    assert_eq!(waits[0], 3600);
    assert_eq!(waits[1], 7200);
    assert_eq!(waits[22], 82800);
    assert_eq!(waits[23], 86400);
    assert_eq!(waits[25], 86400);
}

#[test]
fn schedule_next_visit_sets_the_wait() {
    let mut feed = sample_feed(Some(7200), None);
    schedule_next_visit(&mut feed, FetchCounts { total: 4, new: 1 }, 4000);
    assert_eq!(feed.interval, Some(4000));
    schedule_next_visit(&mut feed, FetchCounts { total: 0, new: 0 }, 4000);
    assert_eq!(feed.interval, Some(7600));
}

#[test]
fn visit_delays_are_in_milliseconds() {
    assert_eq!(visit_delay(3600), 3_600_000);
    assert_eq!(visit_delay(-1), u64::MAX - 999);
    let mut feed = sample_feed(None, None);
    assert_eq!(first_visit_delay(&mut feed), 0);
    assert_eq!(feed.interval, Some(0));
    let mut feed = sample_feed(Some(60), None);
    assert_eq!(first_visit_delay(&mut feed), 60_000);
    assert_eq!(prompt_visit_delay(&mut feed), 0);
    assert_eq!(feed.interval, Some(0));
}

#[test]
fn purify_text_trims_and_drops_blank_texts() {
    assert_eq!(purify_text("  Hello world \n".to_string()), Some("Hello world".to_string()));
    assert_eq!(purify_text("Hello".to_string()), Some("Hello".to_string()));
    assert_eq!(purify_text("".to_string()), None);
    assert_eq!(purify_text(" \t\r\n".to_string()), None);
    assert_eq!(purify_text("\u{a0}x\u{3000}".to_string()), Some("x".to_string()));
}

#[test]
fn purify_text_is_idempotent_on_examples() {
    for s in ["  a b  ", "x", "\n\nline\n"] {
        let once = purify_text(s.to_string()).unwrap();
        assert_eq!(purify_text(once.clone()), Some(once));
    }
}

#[test]
fn unify_language_makes_two_letter_codes() {
    assert_eq!(unify_language("EN".to_string()), Some("en".to_string()));
    assert_eq!(unify_language("ru".to_string()), Some("ru".to_string()));
    assert_eq!(unify_language("en-US".to_string()), Some("en".to_string()));
    assert_eq!(unify_language("  De-at ".to_string()), Some("de".to_string()));
    assert_eq!(unify_language("e".to_string()), None);
    assert_eq!(unify_language("".to_string()), None);
    assert_eq!(unify_language("рус".to_string()), None);
}

#[test]
fn parse_rfc822_date_reads_mail_dates() {
    assert_eq!(
        parse_rfc822_date("Sun, 02 Oct 2016 07:06:22 -0700 (PDT)"),
        Some(Timespec { sec: 1475417182, nsec: 0 })
    );
    assert_eq!(parse_rfc822_date("Mon, 32 Jan 2018 00:00:00 GMT"), None);
}

#[test]
fn parse_url_trims_the_link() {
    let url = parse_url("  http://example.com/a  ").unwrap();
    assert_eq!(url.as_str(), "http://example.com/a");
    assert!(parse_url("not a url").is_none());
    // Url::parse itself does not trim.
    assert_eq!(Url::parse("HTTP://Example.COM").unwrap().as_str(), "http://example.com/");
}

fn sample_feed(interval: Option<i32>, augmented: Option<Timespec>) -> Feed {
    let url = Url::parse("http://example.com/feed").unwrap();
    Feed {
        id: 7,
        key: Key::from_url(&url),
        url,
        title: None,
        description: None,
        language: None,
        logo: None,
        copyright: None,
        interval,
        augmented,
    }
}

fn item(title: Option<&str>, link: Option<&str>, date: Option<&str>) -> Item {
    Item {
        title: title.map(|s| s.to_string()),
        link: link.map(|s| s.to_string()),
        description: Some("  about it ".to_string()),
        author: Some("   ".to_string()),
        pub_date: date.map(|s| s.to_string()),
        content: None,
    }
}

fn sample_channel() -> Channel {
    Channel {
        title: "  News ".to_string(),
        description: " ".to_string(),
        language: Some("EN-us".to_string()),
        image: Some(Image { url: "http://example.com/logo.png".to_string() }),
        copyright: Some(" (c) me ".to_string()),
        items: vec![
            // Old: published before the mark.
            item(Some("old"), Some("http://example.com/old"), Some("Mon, 01 Jan 2001 00:00:00 +0000")),
            // New, with a link.
            item(Some(" First "), Some(" http://example.com/1 "), Some("Tue, 02 Jan 2018 00:00:00 +0000")),
            // Undated, keyed by its title.
            item(Some("Second"), None, None),
            // No link and no title: no key.
            item(None, None, Some("Wed, 03 Jan 2018 00:00:00 +0000")),
            // Unreadable date counts as undated.
            item(None, Some("http://example.com/3"), Some("32 Jan 2018")),
        ],
    }
}

#[test]
fn disassemble_channel_fills_feed_and_collects_new_entries() {
    let mark = Timespec { sec: 1_000_000_000, nsec: 0 };
    let (feed, entries, counts) = disassemble_channel(sample_feed(Some(3600), Some(mark)), sample_channel());
    assert_eq!(feed.id, 7);
    assert_eq!(feed.title, Some("News".to_string()));
    assert_eq!(feed.description, None);
    assert_eq!(feed.language, Some("en".to_string()));
    assert_eq!(feed.logo.as_ref().map(|u| u.as_str()), Some("http://example.com/logo.png"));
    assert_eq!(feed.copyright, Some("(c) me".to_string()));
    assert_eq!(feed.interval, Some(3600));
    assert_eq!(feed.augmented, Some(mark));
    assert_eq!(counts, FetchCounts { total: 3, new: 2 });
    assert_eq!(entries.len(), 3);

    assert_eq!(entries[0].key.as_str(), "http://example.com/1");
    assert_eq!(entries[0].url.as_ref().map(|u| u.as_str()), Some("http://example.com/1"));
    assert_eq!(entries[0].published, Some(Timespec { sec: 1514851200, nsec: 0 }));
    assert_eq!(entries[0].title, Some("First".to_string()));
    assert_eq!(entries[0].description, Some("about it".to_string()));
    assert_eq!(entries[0].author, None);
    assert_eq!(entries[0].feed_id, 7);

    let expected = uuid::Uuid::new_v5(&uuid::Uuid::NAMESPACE_X500, b"Second").hyphenated().to_string();
    assert_eq!(entries[1].key.as_str(), expected);
    assert!(entries[1].url.is_none());
    assert_eq!(entries[1].published, None);

    assert_eq!(entries[2].key.as_str(), "http://example.com/3");
    assert_eq!(entries[2].published, None);
}

#[test]
fn a_channel_without_a_mark_takes_every_dated_item() {
    let (_, entries, counts) = disassemble_channel(sample_feed(Some(3600), None), sample_channel());
    assert_eq!(counts, FetchCounts { total: 3, new: 3 });
    assert_eq!(entries.len(), 4);
    assert_eq!(entries[0].key.as_str(), "http://example.com/old");
}

#[test]
fn recollecting_after_recording_the_latest_gives_no_dated_entry() {
    let mut feed = sample_feed(Some(3600), None);
    let (f, entries, _) = disassemble_channel(feed, sample_channel());
    feed = f;
    assert_eq!(latest_entry_time(&entries), Some(Timespec { sec: 1514851200, nsec: 0 }));
    record_latest(&mut feed, &entries);
    assert_eq!(feed.augmented, Some(Timespec { sec: 1514851200, nsec: 0 }));
    let (_, again, counts) = disassemble_channel(feed, sample_channel());
    assert!(again.iter().all(|e| e.published.is_none()));
    assert_eq!(again.len(), 2);
    assert_eq!(counts, FetchCounts { total: 3, new: 1 });
}

#[test]
fn record_latest_keeps_the_mark_without_dated_entries() {
    let mark = Timespec { sec: 5, nsec: 1 };
    let mut feed = sample_feed(None, Some(mark));
    record_latest(&mut feed, &Vec::new());
    assert_eq!(feed.augmented, Some(mark));
}

fn entry_with_url() -> NewEntry {
    let url = Url::parse("http://example.com/page").unwrap();
    NewEntry {
        key: Key::from_url(&url),
        url: Some(url),
        published: None,
        feed_id: 1,
        title: None,
        author: None,
        description: None,
        content: Some("teaser".to_string()),
    }
}

#[test]
fn attach_document_drops_failed_downloads() {
    let entry = entry_with_url();
    assert!(needs_document(&entry));
    assert!(attach_document(entry, None).is_none());
}

#[test]
fn attach_document_puts_the_readable_page_in_the_content() {
    let page = "<html><head><title>T</title></head><body><div><p>The readable article text is long enough to be kept as the content of the page.</p></div></body></html>";
    let entry = attach_document(entry_with_url(), Some(page.to_string())).unwrap();
    let content = entry.content.unwrap();
    assert_ne!(content, "teaser");
    assert!(content.contains("readable article text"));
}

#[test]
fn keep_downloaded_keeps_order_and_drops_failed_pages() {
    let plain = |key: &str| NewEntry {
        key: Key::from_raw(key.to_string()),
        url: None,
        published: None,
        feed_id: 1,
        title: None,
        author: None,
        description: None,
        content: None,
    };
    let page = "<html><body><div><p>The readable article text is long enough to be kept as the content of the page.</p></div></body></html>";
    let entries = vec![plain("a"), entry_with_url(), plain("b"), entry_with_url()];
    let documents = vec![Some("ignored".to_string()), None, None, Some(page.to_string())];
    let kept = keep_downloaded(entries, &documents);
    let keys: Vec<&str> = kept.iter().map(|e| e.key.as_str()).collect();
    assert_eq!(keys, vec!["a", "b", "http://example.com/page"]);
    assert!(kept[0].content.is_none());
    assert!(kept[2].content.as_ref().unwrap().contains("readable article text"));
}
