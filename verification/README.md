# tyt

A small newsboat-inspired viewer for video feeds (Atom and RSS), written as a
library whose rules are proved with Verus, and a terminal program around it.

- `src/date.rs`: days of the week and the update schedule of a channel.
- `src/url_file.rs`: the entries of the url file.
- `src/internal.rs`: videos, channels, the channel list and list cursors.
- `src/order.rs`: the order of texts and the stable sort of videos by date.
- `src/fetch.rs`: finding known channels, merging fetched videos, arranging a
  channel's videos newest first, and gathering the refreshed channels.
- `src/feed.rs`: the channel that an Atom or RSS feed describes.
- `src/ui.rs`: the state of the two-pane interface and what each key does.
- `app/`: reading and writing files, fetching feeds, worker threads, the
  terminal, and the event loop.
