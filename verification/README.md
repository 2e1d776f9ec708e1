# greeder

A feed reader in two programs: a fetcher that visits RSS feeds on a schedule
and stores their new entries, and a web server on which users subscribe to
feeds and read them. The server tells the fetcher about a newly added feed
with a UDP datagram that carries the feed's id.

`src/` is the verified library (Verus):

- `text`: trimming and purifying texts, unifying language codes.
- `types`: points in time, URLs (parsed by the `url` crate), keys, UUID text.
- `models`: the stored records and what users are shown of them.
- `collect`: taking a fetched channel apart into feed metadata and new entries,
  the feed's mark, and the readable content of downloaded pages.
- `schedule`: the wait before a feed's next visit.
- `ipc`: the feed-id datagram, written and read.
- `server`: the server's decisions per request.
- `store`: a store of feeds, subscriptions, users and entries held in
  memory, its queries, and the requests that change it (adding a feed,
  finding or registering the visiting user, unsubscribing, saving a visit),
  with what holds across two such requests.

`app/` drives the library: the datagram socket, page downloads, RSS parsing,
the floating-point weighing of a channel's staleness, template helpers, the
serde copies of the records, the fetcher's scheduling loop, and the
request handlers over the shared store.
