//! Refreshing a channel: finding it among the known channels, merging freshly
//! fetched videos into the known ones, keeping only the videos of the
//! channel's urls, ordering them newest first, and gathering the refreshed
//! channels into the channel list.

use vstd::prelude::*;
use crate::internal::{Channel, ChannelList, ChannelListView, ChannelView, ListState, Video, channel_views};
use crate::order::{
    by_date, insert_by, sort_by, sort_by_date, sort_videos_by_date, reverse_videos, text_less, text_lt,
};
use crate::url_file::UrlFileItem;

verus! {

broadcast use vstd::seq_lib::group_seq_properties;

/// The first known channel whose id is `id`.
pub open spec fn find_channel(history: Seq<ChannelView>, id: Seq<char>) -> Option<ChannelView>
    decreases history.len(),
{
    if history.len() == 0 {
        None
    } else if history[0].id == id {
        Some(history[0])
    } else {
        find_channel(history.drop_first(), id)
    }
}

/// The videos known of the channel `id`: those of the first known channel with
/// that id, or none.
pub open spec fn known_videos(history: Seq<ChannelView>, id: Seq<char>) -> Seq<Video> {
    match find_channel(history, id) {
        Some(c) => c.videos,
        None => Seq::empty(),
    }
}

/// Some video of `videos` has the link `link`.
pub open spec fn has_link(videos: Seq<Video>, link: Seq<char>) -> bool {
    exists|i: int| 0 <= i < videos.len() && (#[trigger] videos[i]).link@ == link
}

/// The video `v`, flagged as new.
pub open spec fn as_new(v: Video) -> Video {
    Video { new: true, ..v }
}

/// `known`, followed by each video of `updates` whose link is not yet among
/// the videos so far, flagged as new.
pub open spec fn merge_videos(known: Seq<Video>, updates: Seq<Video>) -> Seq<Video>
    decreases updates.len(),
{
    if updates.len() == 0 {
        known
    } else {
        let prev = merge_videos(known, updates.drop_last());
        if has_link(prev, updates.last().link@) {
            prev
        } else {
            prev.push(as_new(updates.last()))
        }
    }
}

/// The channel that a refresh of the entry with id `id`, name `name` and tag
/// `tag` yields from the fetched channel `updates` and the known channels
/// `history`. The entry's name wins over the fetched one where it is not empty.
pub open spec fn updated_channel(
    id: Seq<char>,
    name: Seq<char>,
    tag: Seq<char>,
    updates: ChannelView,
    history: Seq<ChannelView>,
) -> ChannelView {
    ChannelView {
        id: id,
        name: if name.len() == 0 { updates.name } else { name },
        tag: tag,
        videos: merge_videos(known_videos(history, id), updates.videos),
        selected: None,
    }
}

/// The texts of a list of strings.
pub open spec fn texts(strings: Seq<String>) -> Seq<Seq<char>> {
    strings.map_values(|s: String| s@)
}

/// The videos of `videos` that were fetched from one of `urls`, in order.
pub open spec fn from_urls(videos: Seq<Video>, urls: Seq<Seq<char>>) -> Seq<Video>
    decreases videos.len(),
{
    if videos.len() == 0 {
        videos
    } else if urls.contains(videos.last().channel_link@) {
        from_urls(videos.drop_last(), urls).push(videos.last())
    } else {
        from_urls(videos.drop_last(), urls)
    }
}

/// The videos of `videos` that were fetched from one of `urls`, newest first.
pub open spec fn arranged_videos(videos: Seq<Video>, urls: Seq<Seq<char>>) -> Seq<Video> {
    sort_by_date(from_urls(videos, urls)).reverse()
}

/// The channel `c` with its videos arranged for the urls `urls`.
pub open spec fn arranged_channel(c: ChannelView, urls: Seq<Seq<char>>) -> ChannelView {
    ChannelView { videos: arranged_videos(c.videos, urls), ..c }
}

/// The channels present in `results`, in order.
pub open spec fn present_channels(results: Seq<Option<Channel>>) -> Seq<ChannelView>
    decreases results.len(),
{
    if results.len() == 0 {
        Seq::empty()
    } else {
        match results.last() {
            Some(c) => present_channels(results.drop_last()).push(c@),
            None => present_channels(results.drop_last()),
        }
    }
}

/// All videos of `channels`, channel after channel.
pub open spec fn all_videos(channels: Seq<ChannelView>) -> Seq<Video>
    decreases channels.len(),
{
    if channels.len() == 0 {
        Seq::empty()
    } else {
        all_videos(channels.drop_last()) + channels.last().videos
    }
}

/// A copy of the first known channel whose id is `id`, if there is one.
pub fn get_channel_from_history(id: &String, history_channels: &Vec<Channel>) -> (r: Option<Channel>)
    ensures
        match r {
            Some(c) => find_channel(channel_views(history_channels@), id@) == Some(c@),
            None => find_channel(channel_views(history_channels@), id@) is None,
        },
{
    let ghost hs = channel_views(history_channels@);
    let mut i: usize = 0;
    while i < history_channels.len()
        invariant
            i <= history_channels@.len(),
            hs == channel_views(history_channels@),
            find_channel(hs, id@) == find_channel(hs.skip(i as int), id@),
        decreases history_channels@.len() - i,
    {
        proof {
            assert(hs.skip(i as int)[0] == history_channels@[i as int]@);
            assert(hs.skip(i as int).drop_first() =~= hs.skip(i + 1));
        }
        if history_channels[i].id == *id {
            return Some(history_channels[i].clone());
        }
        i = i + 1;
    }
    proof {
        assert(hs.skip(i as int).len() == 0);
    }
    None
}

/// Whether some video of `videos` has the link `link`.
pub fn contains_link(videos: &Vec<Video>, link: &String) -> (r: bool)
    ensures
        r == has_link(videos@, link@),
{
    let mut i: usize = 0;
    while i < videos.len()
        invariant
            i <= videos@.len(),
            forall|j: int| 0 <= j < i ==> (#[trigger] videos@[j]).link@ != link@,
        decreases videos@.len() - i,
    {
        if videos[i].link == *link {
            return true;
        }
        i = i + 1;
    }
    false
}

/// The refreshed channel of the url file entry `item`: its id, tag and name
/// (the fetched name where the entry gives none), the videos known of it, and
/// then each fetched video whose link is not yet among them, flagged as new.
pub fn update_channel<T: UrlFileItem>(
    item: &T,
    channel_updates: Channel,
    history_channels: &Vec<Channel>,
) -> (r: Channel)
    ensures
        r@ == updated_channel(
            item.item_id(),
            item.item_name(),
            item.item_tag(),
            channel_updates@,
            channel_views(history_channels@),
        ),
{
    let mut channel = Channel::new_with_id(item.id());
    channel.name = if item.name().as_str().is_empty() {
        channel_updates.name.clone()
    } else {
        item.name().clone()
    };
    channel.tag = item.tag().clone();
    match get_channel_from_history(item.id(), history_channels) {
        Some(channel_h) => channel.videos = channel_h.videos,
        None => {},
    }
    let ghost known = channel.videos@;
    assert(known == known_videos(channel_views(history_channels@), item.item_id()));
    let updates = &channel_updates.videos;
    let mut i: usize = 0;
    assert(updates@.take(0) =~= Seq::<Video>::empty());
    while i < updates.len()
        invariant
            i <= updates@.len(),
            channel.videos@ == merge_videos(known, updates@.take(i as int)),
            channel@.id == item.item_id(),
            channel@.name == (if item.item_name().len() == 0 { channel_updates@.name } else { item.item_name() }),
            channel@.tag == item.item_tag(),
            channel@.selected == None::<usize>,
        decreases updates@.len() - i,
    {
        let mut vid = updates[i].clone();
        proof {
            assert(updates@.take(i + 1).drop_last() =~= updates@.take(i as int));
            assert(updates@.take(i + 1).last() == updates@[i as int]);
        }
        if !contains_link(&channel.videos, &vid.link) {
            vid.new = true;
            channel.videos.push(vid);
        }
        i = i + 1;
    }
    assert(updates@.take(updates@.len() as int) =~= updates@);
    channel
}

/// Whether `url` is one of `urls`.
pub fn contains_url(urls: &Vec<String>, url: &String) -> (r: bool)
    ensures
        r == texts(urls@).contains(url@),
{
    let mut i: usize = 0;
    while i < urls.len()
        invariant
            i <= urls@.len(),
            forall|j: int| 0 <= j < i ==> (#[trigger] urls@[j])@ != url@,
        decreases urls@.len() - i,
    {
        if urls[i] == *url {
            proof {
                assert(texts(urls@)[i as int] == url@);
            }
            return true;
        }
        i = i + 1;
    }
    proof {
        if texts(urls@).contains(url@) {
            let j = choose|j: int| 0 <= j < texts(urls@).len() && texts(urls@)[j] == url@;
            assert(urls@[j]@ == url@);
        }
    }
    false
}

/// The videos of `videos` that were fetched from one of `urls`, in order.
pub fn keep_from_urls(videos: Vec<Video>, urls: &Vec<String>) -> (r: Vec<Video>)
    ensures
        r@ == from_urls(videos@, texts(urls@)),
{
    let mut r: Vec<Video> = Vec::new();
    let mut i: usize = 0;
    let ghost orig = videos@;
    let mut rest = videos;
    assert(orig.take(0) =~= Seq::<Video>::empty());
    while i < rest.len()
        invariant
            rest@ == orig,
            i <= orig.len(),
            r@ == from_urls(orig.take(i as int), texts(urls@)),
        decreases orig.len() - i,
    {
        proof {
            assert(orig.take(i + 1).drop_last() =~= orig.take(i as int));
            assert(orig.take(i + 1).last() == orig[i as int]);
        }
        if contains_url(urls, &rest[i].channel_link) {
            r.push(rest[i].clone());
        }
        i = i + 1;
    }
    assert(orig.take(orig.len() as int) =~= orig);
    r
}

/// The channel, if any, with only the videos fetched from one of `urls`, newest
/// first (by publication date; videos of equal date in the reverse of their
/// former order).
pub fn arrange_channel(channel: Option<Channel>, urls: &Vec<String>) -> (r: Option<Channel>)
    ensures
        match channel {
            Some(c) => r matches Some(rc) && rc@ == arranged_channel(c@, texts(urls@)),
            None => r is None,
        },
{
    match channel {
        Some(mut ch) => {
            let ghost before = ch@;
            let kept = keep_from_urls(ch.videos, urls);
            let sorted = sort_videos_by_date(&kept);
            ch.videos = reverse_videos(sorted);
            assert(ch@ == arranged_channel(before, texts(urls@)));
            Some(ch)
        },
        None => None,
    }
}

/// `prefix` followed by `text`.
fn prefixed(prefix: &str, text: &String) -> (r: String)
    ensures
        r@ == prefix@ + text@,
{
    let mut r = prefix.to_owned();
    r.append(text.as_str());
    r
}

/// The notice that a channel could not be refreshed, for the reason `err`.
pub fn update_failure_message(err: &String) -> (r: String)
    ensures
        r@ == "Could not update channel: "@ + err@,
{
    prefixed("Could not update channel: ", err)
}

/// The reason for a failed refresh where a feed could not be fetched.
pub fn fetch_failure_message(err: &String) -> (r: String)
    ensures
        r@ == "Could not GET url: "@ + err@,
{
    prefixed("Could not GET url: ", err)
}

/// The reason for a failed refresh where a feed could not be read.
pub fn parse_failure_message(err: &String) -> (r: String)
    ensures
        r@ == "Could not parse: "@ + err@,
{
    prefixed("Could not parse: ", err)
}

/// The channel that the feeds of one entry yield together: the first fetched
/// channel, holding the videos of all of them in order; an error where no feed
/// was fetched.
pub fn combine_downloads(fetched: Vec<Channel>) -> (r: Result<Channel, String>)
    ensures
        match r {
            Ok(c) => fetched@.len() > 0 && c@ == (ChannelView {
                videos: all_videos(channel_views(fetched@)),
                ..fetched@[0]@
            }),
            Err(e) => fetched@.len() == 0 && e@ == "No new content found"@,
        },
{
    if fetched.len() == 0 {
        return Err("No new content found".to_owned());
    }
    let ghost orig = fetched@;
    let ghost views = channel_views(orig);
    let mut rest = fetched;
    let mut first = rest.remove(0);
    let mut k: usize = 1;
    proof {
        assert(views.take(1).drop_last() =~= Seq::<ChannelView>::empty());
        assert(views.take(1).last() == orig[0]@);
        assert(all_videos(views.take(1).drop_last()) =~= Seq::<Video>::empty());
        assert(all_videos(views.take(1)) =~= orig[0]@.videos);
    }
    while rest.len() > 0
        invariant
            1 <= k <= orig.len(),
            orig.len() <= usize::MAX,
            k + rest@.len() == orig.len(),
            rest@ == orig.skip(k as int),
            views == channel_views(orig),
            first@ == (ChannelView { videos: all_videos(views.take(k as int)), ..orig[0]@ }),
        decreases rest@.len(),
    {
        let mut c = rest.remove(0);
        proof {
            assert(views.take(k + 1).drop_last() =~= views.take(k as int));
            assert(views.take(k + 1).last() == c@);
            assert(rest@ =~= orig.skip(k + 1));
        }
        first.videos.append(&mut c.videos);
        k = k + 1;
    }
    assert(views.take(orig.len() as int) =~= views);
    Ok(first)
}

/// The outcome of one refresh job. `download` is `None` where the entry was not
/// due, and otherwise the result of fetching its feeds. The channel is the
/// refreshed one where the fetch succeeded, else the known one (if any), with
/// its videos arranged for `urls`; the notice, where the fetch failed, tells
/// why.
pub fn resolve_channel<T: UrlFileItem>(
    item: &T,
    download: Option<Result<Channel, String>>,
    history_channels: &Vec<Channel>,
    urls: &Vec<String>,
) -> (r: (Option<Channel>, Option<String>))
    ensures
        match download {
            Some(Ok(u)) => {
                &&& r.1 is None
                &&& r.0 matches Some(c) && c@ == arranged_channel(
                    updated_channel(
                        item.item_id(),
                        item.item_name(),
                        item.item_tag(),
                        u@,
                        channel_views(history_channels@),
                    ),
                    texts(urls@),
                )
            },
            _ => {
                &&& match find_channel(channel_views(history_channels@), item.item_id()) {
                    Some(h) => r.0 matches Some(c) && c@ == arranged_channel(h, texts(urls@)),
                    None => r.0 is None,
                }
                &&& match download {
                    Some(Err(e)) => r.1 matches Some(m) && m@ == "Could not update channel: "@ + e@,
                    _ => r.1 is None,
                }
            },
        },
{
    let (channel, notice) = match download {
        Some(Ok(channel_updates)) => {
            (Some(update_channel(item, channel_updates, history_channels)), None)
        },
        Some(Err(err_text)) => {
            let notice = update_failure_message(&err_text);
            (get_channel_from_history(item.id(), history_channels), Some(notice))
        },
        None => (get_channel_from_history(item.id(), history_channels), None),
    };
    (arrange_channel(channel, urls), notice)
}

/// The key by which channels are ordered: their tag, or their name.
pub open spec fn channel_key(by_tag: bool) -> spec_fn(ChannelView) -> Seq<char> {
    |c: ChannelView| if by_tag { c.tag } else { c.name }
}

/// Whether `a` comes before `b` by tag, or by name.
pub fn channel_key_less(a: &Channel, b: &Channel, by_tag: bool) -> (r: bool)
    ensures
        r == text_lt(channel_key(by_tag)(a@), channel_key(by_tag)(b@)),
{
    if by_tag {
        text_less(&a.tag, &b.tag)
    } else {
        text_less(&a.name, &b.name)
    }
}

/// The channels sorted by tag, or by name; channels with equal keys keep
/// their order.
pub fn sort_channels(channels: Vec<Channel>, by_tag: bool) -> (r: Vec<Channel>)
    ensures
        channel_views(r@) == sort_by(channel_views(channels@), channel_key(by_tag)),
{
    let ghost orig = channel_views(channels@);
    let ghost key = channel_key(by_tag);
    let mut rest = channels;
    let mut r: Vec<Channel> = Vec::new();
    let mut k: usize = 0;
    let n = rest.len();
    assert(orig.take(0) =~= Seq::<ChannelView>::empty());
    assert(channel_views(r@) =~= Seq::<ChannelView>::empty());
    while rest.len() > 0
        invariant
            k <= orig.len(),
            n == orig.len(),
            k + rest@.len() == orig.len(),
            key == channel_key(by_tag),
            channel_views(rest@) == orig.skip(k as int),
            channel_views(r@) == sort_by(orig.take(k as int), key),
        decreases rest@.len(),
    {
        let ghost before_rest = rest@;
        let c = rest.remove(0);
        proof {
            assert(channel_views(before_rest)[0] == c@);
            assert(orig.take(k + 1).drop_last() =~= orig.take(k as int));
            assert(orig.take(k + 1).last() == c@);
            assert(channel_views(rest@) =~= orig.skip(k + 1));
        }
        let mut j: usize = r.len();
        loop
            invariant
                j <= r@.len(),
                key == channel_key(by_tag),
                channel_views(r@) == sort_by(orig.take(k as int), key),
                insert_by(channel_views(r@), c@, key) =~= insert_by(channel_views(r@).take(j as int), c@, key)
                    + channel_views(r@).skip(j as int),
            ensures
                j <= r@.len(),
                channel_views(r@) == sort_by(orig.take(k as int), key),
                insert_by(channel_views(r@), c@, key) =~= insert_by(channel_views(r@).take(j as int), c@, key)
                    + channel_views(r@).skip(j as int),
                j == 0 || !text_lt(key(c@), key(channel_views(r@)[j - 1])),
            decreases j,
        {
            if j == 0 {
                break;
            }
            if !channel_key_less(&c, &r[j - 1], by_tag) {
                break;
            }
            proof {
                let vs = channel_views(r@);
                assert(vs[j - 1] == r@[j - 1]@);
                assert(vs.take(j as int).drop_last() =~= vs.take(j - 1));
                assert(vs.take(j as int).last() == vs[j - 1]);
                assert(vs.skip(j - 1) =~= seq![vs[j - 1]] + vs.skip(j as int));
            }
            j = j - 1;
        }
        proof {
            let vs = channel_views(r@);
            if j == 0 {
                assert(vs.take(0) =~= Seq::<ChannelView>::empty());
                assert(insert_by(vs.take(0), c@, key) == seq![c@]);
                assert(vs.skip(0) =~= vs);
            } else {
                let t = vs.take(j as int);
                assert(t.last() == vs[j - 1]);
                assert(insert_by(t, c@, key) == t.push(c@));
                assert(t.push(c@) + vs.skip(j as int) =~= vs.insert(j as int, c@));
            }
            assert(insert_by(vs, c@, key) =~= vs.insert(j as int, c@));
        }
        let ghost before_r = r@;
        r.insert(j, c);
        proof {
            assert(channel_views(r@) =~= channel_views(before_r).insert(j as int, c@));
        }
        k = k + 1;
    }
    assert(orig.take(orig.len() as int) =~= orig);
    r
}

/// The channel list made of the refreshed channels, sorted by tag where
/// `sort_by_tag` says so and by name otherwise (channels with equal keys in the
/// order they came), with the first row selected.
pub fn collect_channels(results: Vec<Option<Channel>>, sort_by_tag: bool) -> (r: ChannelList)
    ensures
        r@ == (ChannelListView {
            channels: sort_by(present_channels(results@), channel_key(sort_by_tag)),
            selected: Some(0usize),
        }),
{
    let ghost orig = results@;
    let mut rest = results;
    let mut channel_list = ChannelList::new();
    let mut k: usize = 0;
    let n = rest.len();
    assert(orig.take(0) =~= Seq::<Option<Channel>>::empty());
    while rest.len() > 0
        invariant
            k <= orig.len(),
            n == orig.len(),
            k + rest@.len() == orig.len(),
            rest@ == orig.skip(k as int),
            channel_list@.channels == present_channels(orig.take(k as int)),
            channel_list.list_state.selected == None::<usize>,
        decreases rest@.len(),
    {
        let chan_opt = rest.remove(0);
        proof {
            assert(orig.take(k + 1).drop_last() =~= orig.take(k as int));
            assert(orig.take(k + 1).last() == chan_opt);
            assert(rest@ =~= orig.skip(k + 1));
        }
        match chan_opt {
            Some(chan) => {
                let ghost before = channel_list@.channels;
                channel_list.channels.push(chan);
                assert(channel_list@.channels =~= before.push(chan@));
            },
            None => {},
        }
        k = k + 1;
    }
    assert(orig.take(orig.len() as int) =~= orig);
    let sorted = sort_channels(channel_list.channels, sort_by_tag);
    let mut list = ChannelList::new();
    list.channels = sorted;
    list.list_state.select(Some(0));
    list
}

/// The refresh results, as plain values.
pub open spec fn result_views(results: Seq<Option<Channel>>) -> Seq<Option<ChannelView>> {
    results.map_values(|o: Option<Channel>| match o {
        Some(c) => Some(c@),
        None => None,
    })
}

proof fn lemma_present_counts(results: Seq<Option<Channel>>, c: ChannelView)
    ensures
        present_channels(results).to_multiset().count(c) == result_views(results).to_multiset().count(Some(c)),
    decreases results.len(),
{
    broadcast use vstd::multiset::group_multiset_axioms;
    if results.len() == 0 {
        assert(result_views(results) =~= Seq::<Option<ChannelView>>::empty());
        Seq::<ChannelView>::empty().to_multiset_ensures();
        Seq::<Option<ChannelView>>::empty().to_multiset_ensures();
    } else {
        let p = results.drop_last();
        lemma_present_counts(p, c);
        assert(result_views(results) =~= result_views(p).push(result_views(results).last()));
        vstd::seq_lib::to_multiset_build(result_views(p), result_views(results).last());
        match results.last() {
            Some(x) => {
                vstd::seq_lib::to_multiset_build(present_channels(p), x@);
            },
            None => {},
        }
    }
}

/// The channel list does not depend on the order in which the refresh jobs
/// finished: refresh results that hold the same channels, in any order, give
/// lists that hold the same channels, all with the first row selected.
pub proof fn lemma_collect_order_free(
    results1: Seq<Option<Channel>>,
    results2: Seq<Option<Channel>>,
    by_tag: bool,
)
    requires
        result_views(results1).to_multiset() == result_views(results2).to_multiset(),
    ensures
        sort_by(present_channels(results1), channel_key(by_tag)).to_multiset() == sort_by(
            present_channels(results2),
            channel_key(by_tag),
        ).to_multiset(),
{
    let m1 = present_channels(results1).to_multiset();
    let m2 = present_channels(results2).to_multiset();
    assert forall|c: ChannelView| m1.count(c) == m2.count(c) by {
        lemma_present_counts(results1, c);
        lemma_present_counts(results2, c);
    }
    assert(m1 =~= m2);
    crate::order::lemma_sort_by(present_channels(results1), channel_key(by_tag));
    crate::order::lemma_sort_by(present_channels(results2), channel_key(by_tag));
}

/// No two videos of `videos` share a link.
pub open spec fn unique_links(videos: Seq<Video>) -> bool {
    forall|i: int, j: int|
        0 <= i < j < videos.len() ==> (#[trigger] videos[i]).link@ != (#[trigger] videos[j]).link@
}

/// Merging fetched videos keeps the known videos, in order, at the front, and
/// whatever follows them is a fetched video flagged as new whose link was not
/// known.
pub proof fn lemma_merge_keeps_known(known: Seq<Video>, updates: Seq<Video>)
    ensures
        merge_videos(known, updates).len() >= known.len(),
        merge_videos(known, updates).take(known.len() as int) == known,
        forall|k: int|
            known.len() <= k < merge_videos(known, updates).len() ==> {
                &&& exists|i: int|
                    0 <= i < updates.len() && #[trigger] merge_videos(known, updates)[k] == as_new(
                        updates[i],
                    )
                &&& !has_link(known, merge_videos(known, updates)[k].link@)
            },
    decreases updates.len(),
{
    if updates.len() > 0 {
        let prev = merge_videos(known, updates.drop_last());
        lemma_merge_keeps_known(known, updates.drop_last());
        let m = merge_videos(known, updates);
        assert(m.take(known.len() as int) =~= known) by {
            assert forall|k: int| 0 <= k < known.len() implies m[k] == prev[k] by {}
            assert(prev.take(known.len() as int) =~= known);
        }
        assert forall|k: int| known.len() <= k < m.len() implies {
            &&& exists|i: int| 0 <= i < updates.len() && #[trigger] m[k] == as_new(updates[i])
            &&& !has_link(known, m[k].link@)
        } by {
            if k < prev.len() {
                assert(m[k] == prev[k]);
                let i = choose|i: int| 0 <= i < updates.drop_last().len() && #[trigger] prev[k] == as_new(
                    updates.drop_last()[i],
                );
                assert(m[k] == as_new(updates[i]));
            } else {
                assert(m[k] == as_new(updates.last()));
                assert(m[k] == as_new(updates[updates.len() - 1]));
                if has_link(known, m[k].link@) {
                    let j = choose|j: int| 0 <= j < known.len() && (#[trigger] known[j]).link@ == m[k].link@;
                    assert(prev.take(known.len() as int)[j] == prev[j]);
                    assert(prev[j].link@ == updates.last().link@);
                }
            }
        }
    }
}

/// After a merge, every fetched video's link is among the videos.
pub proof fn lemma_merge_covers_updates(known: Seq<Video>, updates: Seq<Video>)
    ensures
        forall|i: int| 0 <= i < updates.len() ==> has_link(merge_videos(known, updates), (#[trigger] updates[i]).link@),
    decreases updates.len(),
{
    if updates.len() > 0 {
        let prev = merge_videos(known, updates.drop_last());
        let m = merge_videos(known, updates);
        lemma_merge_covers_updates(known, updates.drop_last());
        assert forall|i: int| 0 <= i < updates.len() implies has_link(m, (#[trigger] updates[i]).link@) by {
            if i < updates.len() - 1 {
                assert(updates[i] == updates.drop_last()[i]);
                let j = choose|j: int| 0 <= j < prev.len() && (#[trigger] prev[j]).link@ == updates[i].link@;
                assert(m[j] == prev[j]);
            } else if !has_link(prev, updates.last().link@) {
                assert(m[prev.len() as int].link@ == updates.last().link@);
            }
        }
    }
}

/// Merging into videos with distinct links gives videos with distinct links.
pub proof fn lemma_merge_unique_links(known: Seq<Video>, updates: Seq<Video>)
    requires
        unique_links(known),
    ensures
        unique_links(merge_videos(known, updates)),
    decreases updates.len(),
{
    if updates.len() > 0 {
        let prev = merge_videos(known, updates.drop_last());
        lemma_merge_unique_links(known, updates.drop_last());
        let m = merge_videos(known, updates);
        if !has_link(prev, updates.last().link@) {
            assert forall|i: int, j: int| 0 <= i < j < m.len() implies (#[trigger] m[i]).link@ != (
            #[trigger] m[j]).link@ by {
                if j == prev.len() {
                    assert(m[i] == prev[i]);
                }
            }
        }
    }
}

/// Merging videos whose links are all present already changes nothing.
pub proof fn lemma_merge_of_present(videos: Seq<Video>, updates: Seq<Video>)
    requires
        forall|i: int| 0 <= i < updates.len() ==> has_link(videos, (#[trigger] updates[i]).link@),
    ensures
        merge_videos(videos, updates) == videos,
    decreases updates.len(),
{
    if updates.len() > 0 {
        assert forall|i: int| 0 <= i < updates.drop_last().len() implies has_link(
            videos,
            (#[trigger] updates.drop_last()[i]).link@,
        ) by {
            assert(updates.drop_last()[i] == updates[i]);
        }
        lemma_merge_of_present(videos, updates.drop_last());
        assert(has_link(videos, updates[updates.len() - 1].link@));
    }
}

/// Merging the same fetched videos a second time changes nothing.
pub proof fn lemma_merge_idempotent(known: Seq<Video>, updates: Seq<Video>)
    ensures
        merge_videos(merge_videos(known, updates), updates) == merge_videos(known, updates),
{
    lemma_merge_covers_updates(known, updates);
    lemma_merge_of_present(merge_videos(known, updates), updates);
}

/// Refreshing a channel a second time from the same fetched channel, with the
/// first refresh as the only known channel, gives the same channel.
pub proof fn lemma_update_channel_idempotent(
    id: Seq<char>,
    name: Seq<char>,
    tag: Seq<char>,
    updates: ChannelView,
    history: Seq<ChannelView>,
)
    ensures
        updated_channel(id, name, tag, updates, seq![updated_channel(id, name, tag, updates, history)])
            == updated_channel(id, name, tag, updates, history),
{
    let first = updated_channel(id, name, tag, updates, history);
    assert(find_channel(seq![first], id) == Some(first));
    lemma_merge_idempotent(known_videos(history, id), updates.videos);
}

/// Every video kept for `urls` was fetched from one of them.
pub proof fn lemma_from_urls_listed(videos: Seq<Video>, urls: Seq<Seq<char>>)
    ensures
        forall|k: int| 0 <= k < from_urls(videos, urls).len() ==> urls.contains(
            (#[trigger] from_urls(videos, urls)[k]).channel_link@,
        ),
    decreases videos.len(),
{
    if videos.len() > 0 {
        lemma_from_urls_listed(videos.drop_last(), urls);
        let prev = from_urls(videos.drop_last(), urls);
        let f = from_urls(videos, urls);
        assert forall|k: int| 0 <= k < f.len() implies urls.contains((#[trigger] f[k]).channel_link@) by {
            if k < prev.len() {
                assert(f[k] == prev[k]);
            }
        }
    }
}

/// The arranged videos of a channel are exactly its videos from `urls`,
/// newest first, and each of them was fetched from one of `urls`.
pub proof fn lemma_arranged_videos(videos: Seq<Video>, urls: Seq<Seq<char>>)
    ensures
        crate::order::descending_by(arranged_videos(videos, urls), by_date()),
        arranged_videos(videos, urls).to_multiset() == from_urls(videos, urls).to_multiset(),
        forall|k: int| 0 <= k < arranged_videos(videos, urls).len() ==> urls.contains(
            (#[trigger] arranged_videos(videos, urls)[k]).channel_link@,
        ),
{
    let f = from_urls(videos, urls);
    let s = sort_by_date(f);
    let a = arranged_videos(videos, urls);
    crate::order::lemma_sort_by(f, by_date());
    crate::order::lemma_reverse_descending(s, by_date());
    s.lemma_reverse_to_multiset();
    lemma_from_urls_listed(videos, urls);
    assert forall|k: int| 0 <= k < a.len() implies urls.contains((#[trigger] a[k]).channel_link@) by {
        a.to_multiset_ensures();
        f.to_multiset_ensures();
        assert(a.contains(a[k]));
        assert(a.to_multiset().count(a[k]) > 0);
        assert(a.to_multiset() == s.to_multiset());
        assert(f.to_multiset().count(a[k]) > 0);
        assert(f.contains(a[k]));
        let j = choose|j: int| 0 <= j < f.len() && f[j] == a[k];
        assert(urls.contains(f[j].channel_link@));
    }
}


/// The url filter keeps exactly the videos fetched from a listed url, in their
/// order: it is the filter of `videos` by that condition, so every such video
/// is kept, seen or not.
pub proof fn lemma_from_urls_is_filter(videos: Seq<Video>, urls: Seq<Seq<char>>)
    ensures
        from_urls(videos, urls) == videos.filter(|v: Video| urls.contains(v.channel_link@)),
        forall|k: int|
            0 <= k < videos.len() && urls.contains(videos[k].channel_link@) ==> from_urls(videos, urls).contains(
                #[trigger] videos[k],
            ),
    decreases videos.len(),
{
    let pred = |v: Video| urls.contains(v.channel_link@);
    reveal_with_fuel(Seq::filter, 1);
    if videos.len() > 0 {
        lemma_from_urls_is_filter(videos.drop_last(), urls);
    }
    assert(from_urls(videos, urls) == videos.filter(pred));
    assert forall|k: int| 0 <= k < videos.len() && urls.contains(videos[k].channel_link@) implies from_urls(
        videos,
        urls,
    ).contains(#[trigger] videos[k]) by {
        videos.lemma_filter_contains_rev(pred, videos[k]);
        assert(videos.contains(videos[k]));
    }
}

/// Arranging a channel drops only the videos of unlisted urls: every video
/// fetched from a listed url, seen or not, is among the arranged videos.
pub proof fn lemma_arranged_keeps_listed(videos: Seq<Video>, urls: Seq<Seq<char>>)
    ensures
        forall|k: int|
            0 <= k < videos.len() && urls.contains(videos[k].channel_link@) ==> arranged_videos(
                videos,
                urls,
            ).contains(#[trigger] videos[k]),
        arranged_videos(videos, urls).len() == videos.filter(|v: Video| urls.contains(v.channel_link@)).len(),
{
    lemma_from_urls_is_filter(videos, urls);
    lemma_arranged_videos(videos, urls);
    let f = from_urls(videos, urls);
    let a = arranged_videos(videos, urls);
    crate::order::lemma_sort_by(f, by_date());
    assert forall|k: int|
        0 <= k < videos.len() && urls.contains(videos[k].channel_link@) implies a.contains(#[trigger] videos[k]) by {
        f.to_multiset_ensures();
        a.to_multiset_ensures();
        assert(f.contains(videos[k]));
        assert(f.to_multiset().count(videos[k]) > 0);
    }
    f.to_multiset_ensures();
    a.to_multiset_ensures();
}

/// The videos of several channels are those of each channel, one after the
/// other: gathering the videos of two runs of channels gives the videos of the
/// first run followed by those of the second.
pub proof fn lemma_all_videos_concat(cs1: Seq<ChannelView>, cs2: Seq<ChannelView>)
    ensures
        all_videos(cs1 + cs2) == all_videos(cs1) + all_videos(cs2),
    decreases cs2.len(),
{
    if cs2.len() == 0 {
        assert(cs1 + cs2 =~= cs1);
        assert(all_videos(cs1) + Seq::<Video>::empty() =~= all_videos(cs1));
    } else {
        lemma_all_videos_concat(cs1, cs2.drop_last());
        assert((cs1 + cs2).drop_last() =~= cs1 + cs2.drop_last());
        assert((cs1 + cs2).last() == cs2.last());
        assert(all_videos(cs1 + cs2) =~= all_videos(cs1) + all_videos(cs2));
    }
}

/// Adding a channel adds its videos at the end, and a single channel's videos
/// are its own; so the gathered videos number the sum of the channels' videos.
pub proof fn lemma_all_videos_push(cs: Seq<ChannelView>, c: ChannelView)
    ensures
        all_videos(cs.push(c)) == all_videos(cs) + c.videos,
        all_videos(seq![c]) == c.videos,
        all_videos(cs.push(c)).len() == all_videos(cs).len() + c.videos.len(),
{
    lemma_all_videos_concat(cs, seq![c]);
    assert(cs + seq![c] =~= cs.push(c));
    assert(seq![c].drop_last() =~= Seq::<ChannelView>::empty());
    assert(seq![c].last() == c);
    assert(all_videos(Seq::<ChannelView>::empty()) =~= Seq::<Video>::empty());
    assert(Seq::<Video>::empty() + c.videos =~= c.videos);
    assert(all_videos(seq![c]) =~= c.videos);
}

/// Every video of every fetched feed is among the combined videos.
pub proof fn lemma_all_videos_contains(cs: Seq<ChannelView>, i: int, j: int)
    requires
        0 <= i < cs.len(),
        0 <= j < cs[i].videos.len(),
    ensures
        all_videos(cs).contains(cs[i].videos[j]),
{
    let front = cs.take(i);
    let back = cs.skip(i + 1);
    assert(cs =~= front.push(cs[i]) + back);
    lemma_all_videos_concat(front.push(cs[i]), back);
    lemma_all_videos_push(front, cs[i]);
    let all = all_videos(cs);
    let k = all_videos(front).len() + j;
    assert(all[k] == cs[i].videos[j]);
}
} // verus!
