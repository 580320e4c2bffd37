//! The two kinds of feed a channel may have, Atom and RSS, as read from their
//! XML, and the channel that each describes.

use vstd::prelude::*;
use crate::internal::{Channel, ChannelView, ListState, Video};

verus! {

broadcast use vstd::seq_lib::group_seq_properties;

/// An entry of an Atom feed.
#[derive(Debug)]
pub struct AtomEntry {
    pub title: String,
    /// The `href` of the entry's link.
    pub link: String,
    pub published: String,
}

/// An Atom feed.
#[derive(Debug)]
pub struct AtomFeed {
    pub title: String,
    pub entries: Vec<AtomEntry>,
}

/// An item of an RSS feed.
#[derive(Debug)]
pub struct RssItem {
    pub title: String,
    pub link: String,
    pub pub_date: String,
}

/// An RSS feed (the `channel` element of its `rss` element).
#[derive(Debug)]
pub struct RssFeed {
    pub title: String,
    pub link: String,
    pub items: Vec<RssItem>,
}

/// The video that an Atom entry fetched from `origin_url` describes.
pub open spec fn atom_video(e: AtomEntry, origin_url: String) -> Video {
    Video {
        title: e.title,
        link: e.link,
        channel_link: origin_url,
        pub_date: e.published,
        marked: false,
        new: false,
    }
}

/// The video that an RSS item fetched from `origin_url` describes.
pub open spec fn rss_video(it: RssItem, origin_url: String) -> Video {
    Video {
        title: it.title,
        link: it.link,
        channel_link: origin_url,
        pub_date: it.pub_date,
        marked: false,
        new: false,
    }
}

/// The channel of a feed fetched from `origin_url`, titled `title`, with the
/// videos `videos`.
pub open spec fn feed_channel(title: Seq<char>, videos: Seq<Video>, origin_url: Seq<char>) -> ChannelView {
    ChannelView {
        id: origin_url,
        name: title,
        tag: Seq::empty(),
        videos: videos,
        selected: None,
    }
}

/// The channel that the Atom feed `feed`, fetched from `origin_url`, describes.
pub open spec fn atom_channel(feed: AtomFeed, origin_url: String) -> ChannelView {
    feed_channel(
        feed.title@,
        Seq::new(feed.entries@.len(), |i: int| atom_video(feed.entries@[i], origin_url)),
        origin_url@,
    )
}

/// The channel that the RSS feed `feed`, fetched from `origin_url`, describes.
pub open spec fn rss_channel(feed: RssFeed, origin_url: String) -> ChannelView {
    feed_channel(
        feed.title@,
        Seq::new(feed.items@.len(), |i: int| rss_video(feed.items@[i], origin_url)),
        origin_url@,
    )
}

impl AtomEntry {
    fn to_video(&self, origin_url: &String) -> (r: Video)
        ensures
            r == atom_video(*self, *origin_url),
    {
        Video {
            title: self.title.clone(),
            link: self.link.clone(),
            channel_link: origin_url.clone(),
            pub_date: self.published.clone(),
            marked: false,
            new: false,
        }
    }
}

impl RssItem {
    fn to_video(&self, origin_url: &String) -> (r: Video)
        ensures
            r == rss_video(*self, *origin_url),
    {
        Video {
            title: self.title.clone(),
            link: self.link.clone(),
            channel_link: origin_url.clone(),
            pub_date: self.pub_date.clone(),
            marked: false,
            new: false,
        }
    }
}

impl AtomFeed {
    /// The channel that this feed, fetched from `origin_url`, describes.
    pub fn to_internal_channel(&self, origin_url: &String) -> (r: Channel)
        ensures
            r@ == atom_channel(*self, *origin_url),
    {
        let mut videos: Vec<Video> = Vec::new();
        let mut i: usize = 0;
        while i < self.entries.len()
            invariant
                i <= self.entries@.len(),
                videos@ =~= Seq::new(i as nat, |j: int| atom_video(self.entries@[j], *origin_url)),
            decreases self.entries@.len() - i,
        {
            videos.push(self.entries[i].to_video(origin_url));
            i = i + 1;
        }
        Channel {
            id: origin_url.clone(),
            name: self.title.clone(),
            tag: String::new(),
            videos: videos,
            list_state: ListState::new(),
        }
    }
}

impl RssFeed {
    /// The channel that this feed, fetched from `origin_url`, describes.
    pub fn to_internal_channel(&self, origin_url: &String) -> (r: Channel)
        ensures
            r@ == rss_channel(*self, *origin_url),
    {
        let mut videos: Vec<Video> = Vec::new();
        let mut i: usize = 0;
        while i < self.items.len()
            invariant
                i <= self.items@.len(),
                videos@ =~= Seq::new(i as nat, |j: int| rss_video(self.items@[j], *origin_url)),
            decreases self.items@.len() - i,
        {
            videos.push(self.items[i].to_video(origin_url));
            i = i + 1;
        }
        Channel {
            id: origin_url.clone(),
            name: self.title.clone(),
            tag: String::new(),
            videos: videos,
            list_state: ListState::new(),
        }
    }
}

/// The channel of a feed fetched from `origin_url`, given what reading the
/// feed's text as Atom and as RSS gave: the Atom reading where there is one,
/// else the RSS reading, else an error.
pub fn channel_from_feeds(atom: Option<AtomFeed>, rss: Option<RssFeed>, origin_url: &String) -> (r: Result<
    Channel,
    String,
>)
    ensures
        match (atom, rss) {
            (Some(a), _) => r matches Ok(c) && c@ == atom_channel(a, *origin_url),
            (None, Some(f)) => r matches Ok(c) && c@ == rss_channel(f, *origin_url),
            (None, None) => r matches Err(e) && e@ == "Could not parse feed"@,
        },
{
    match atom {
        Some(feed) => return Ok(feed.to_internal_channel(origin_url)),
        None => {},
    }
    match rss {
        Some(feed) => return Ok(feed.to_internal_channel(origin_url)),
        None => {},
    }
    Err("Could not parse feed".to_owned())
}

} // verus!
