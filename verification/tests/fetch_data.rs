use tyt::date::{needs_update, Date, Weekday};
use tyt::feed::{channel_from_feeds, AtomEntry, AtomFeed, RssFeed, RssItem};
use tyt::fetch::{
    arrange_channel, sort_channels, collect_channels, combine_downloads, contains_link, contains_url,
    fetch_failure_message, get_channel_from_history, keep_from_urls, parse_failure_message,
    resolve_channel, update_channel, update_failure_message,
};
use tyt::internal::{Channel, Video};
use tyt::order::{reverse_videos, sort_videos_by_date, text_less};
use tyt::url_file::{
    date_always, empty_string, empty_url_file_channel, empty_url_file_custom_channel, UrlFile,
    UrlFileChannel, UrlFileCustomChannel, UrlFileItem,
};

fn video(link: &str, channel_link: &str, pub_date: &str) -> Video {
    let mut v = Video::new();
    v.title = format!("title of {}", link);
    v.link = String::from(link);
    v.channel_link = String::from(channel_link);
    v.pub_date = String::from(pub_date);
    v
}

fn channel(id: &str, name: &str, videos: Vec<Video>) -> Channel {
    let mut c = Channel::new_with_id(&String::from(id));
    c.name = String::from(name);
    c.videos = videos;
    c
}

fn links(videos: &Vec<Video>) -> Vec<String> {
    videos.iter().map(|v| v.link.clone()).collect()
}

fn url_channel(url: &str, name: &str, tag: &str, update_on: Vec<Date>) -> UrlFileChannel {
    UrlFileChannel {
        url: String::from(url),
        name: String::from(name),
        update_on,
        tag: String::from(tag),
    }
}

#[test]
fn get_channel_from_history_test() {
    let url = String::from("URL");
    let mut channel = Channel::new();
    channel.id = url.clone();

    let mut history_channels = Vec::new();
    history_channels.push(channel);

    let channel = get_channel_from_history(&url, &history_channels);

    assert!(channel.is_some());
}

#[test]
fn history_lookup_takes_first_match() {
    let history = vec![
        channel("a", "first a", vec![]),
        channel("b", "b", vec![]),
        channel("a", "second a", vec![]),
    ];
    let found = get_channel_from_history(&String::from("a"), &history).unwrap();
    assert_eq!(found.name, "first a");
    assert!(get_channel_from_history(&String::from("c"), &history).is_none());
    assert!(get_channel_from_history(&String::from("a"), &vec![]).is_none());
}

#[test]
fn schedule_entries_cover_their_days() {
    let days = [
        Weekday::Mon,
        Weekday::Tue,
        Weekday::Wed,
        Weekday::Thu,
        Weekday::Fri,
        Weekday::Sat,
        Weekday::Sun,
    ];
    for (i, d) in days.iter().enumerate() {
        assert!(Date::Always.eq_to(d));
        assert!(!Date::Never.eq_to(d));
        assert_eq!(Date::Workday.eq_to(d), i < 5);
        assert_eq!(Date::Weekend.eq_to(d), i >= 5);
        assert_ne!(Date::Workday.eq_to(d), Date::Weekend.eq_to(d));
        assert_eq!(Weekday::from_days_from_monday(i as u32), *d);
    }
    assert!(Date::Tue.eq_to(&Weekday::Tue));
    assert!(!Date::Tue.eq_to(&Weekday::Wed));
    assert!(Date::Sun.eq_to(&Weekday::Sun));
}

#[test]
fn update_due_when_some_entry_covers_today() {
    assert!(needs_update(&date_always(), Weekday::Wed));
    assert!(!needs_update(&vec![Date::Never], Weekday::Wed));
    assert!(!needs_update(&vec![], Weekday::Wed));
    assert!(needs_update(&vec![Date::Mon, Date::Weekend], Weekday::Sat));
    assert!(!needs_update(&vec![Date::Mon, Date::Weekend], Weekday::Fri));
}

#[test]
fn url_file_defaults_and_length() {
    assert_eq!(date_always(), vec![Date::Always]);
    assert_eq!(empty_string(), "");
    assert!(empty_url_file_channel().is_empty());
    assert!(empty_url_file_custom_channel().is_empty());
    let mut f = UrlFile::new();
    assert_eq!(f.len(), 0);
    f.channel.push(url_channel("u1", "", "", date_always()));
    f.custom_channel.push(UrlFileCustomChannel {
        urls: vec![String::from("u2"), String::from("u3")],
        name: String::from("combined"),
        update_on: date_always(),
        tag: String::new(),
    });
    assert_eq!(f.len(), 2);
}

#[test]
fn items_are_known_by_url_or_name() {
    let c = url_channel("https://feed", "Name", "TAG", vec![Date::Mon]);
    assert_eq!(c.id(), "https://feed");
    assert_eq!(c.name(), "Name");
    assert_eq!(c.tag(), "TAG");
    assert_eq!(c.update_on(), &vec![Date::Mon]);
    let cc = UrlFileCustomChannel {
        urls: vec![String::from("u2")],
        name: String::from("combined"),
        update_on: vec![Date::Weekend],
        tag: String::from("T"),
    };
    assert_eq!(cc.id(), "combined");
    assert_eq!(cc.name(), "combined");
    assert_eq!(cc.tag(), "T");
    assert_eq!(cc.update_on(), &vec![Date::Weekend]);
}

#[test]
fn text_order_is_lexicographic() {
    let s = |x: &str| String::from(x);
    assert!(text_less(&s("a"), &s("b")));
    assert!(text_less(&s("ab"), &s("b")));
    assert!(text_less(&s(""), &s("a")));
    assert!(text_less(&s("ab"), &s("abc")));
    assert!(!text_less(&s("abc"), &s("ab")));
    assert!(!text_less(&s("a"), &s("a")));
    assert!(!text_less(&s(""), &s("")));
    assert!(text_less(&s("2021-03-01"), &s("2021-03-02")));
    assert!(text_less(&s("Z"), &s("a")));
    assert!(text_less(&s("é"), &s("ü")));
}

#[test]
fn sort_is_stable_and_ascending() {
    let vs = vec![
        video("x1", "u", "2021-02"),
        video("x2", "u", "2021-01"),
        video("x3", "u", "2021-02"),
        video("x4", "u", "2020-12"),
    ];
    let sorted = sort_videos_by_date(&vs);
    assert_eq!(links(&sorted), vec!["x4", "x2", "x1", "x3"]);
    let reversed = reverse_videos(sorted);
    assert_eq!(links(&reversed), vec!["x3", "x1", "x2", "x4"]);
    assert!(sort_videos_by_date(&vec![]).is_empty());
}

#[test]
fn arranging_keeps_listed_urls_newest_first() {
    let c = channel(
        "id",
        "n",
        vec![
            video("a", "u1", "2021-01-01"),
            video("b", "gone", "2021-05-01"),
            video("c", "u2", "2021-03-01"),
            video("d", "u1", "2021-02-01"),
        ],
    );
    let urls = vec![String::from("u1"), String::from("u2")];
    let arranged = arrange_channel(Some(c), &urls).unwrap();
    assert_eq!(links(&arranged.videos), vec!["c", "d", "a"]);
    assert_eq!(arranged.id, "id");
    assert_eq!(arranged.name, "n");
    assert!(arrange_channel(None, &urls).is_none());
    let kept = keep_from_urls(vec![video("a", "u1", "1"), video("b", "u3", "2")], &urls);
    assert_eq!(links(&kept), vec!["a"]);
    assert!(contains_url(&urls, &String::from("u2")));
    assert!(!contains_url(&urls, &String::from("u3")));
}

#[test]
fn update_keeps_known_videos_and_adds_new_ones() {
    let item = url_channel("feed", "", "TAG", date_always());
    let history = vec![channel("feed", "old name", vec![video("a", "feed", "1"), video("b", "feed", "2")])];
    let updates = channel(
        "other",
        "fetched name",
        vec![video("b", "feed", "2"), video("c", "feed", "3"), video("c", "feed", "3"), video("d", "feed", "4")],
    );
    let r = update_channel(&item, updates, &history);
    assert_eq!(r.id, "feed");
    assert_eq!(r.name, "fetched name");
    assert_eq!(r.tag, "TAG");
    assert_eq!(links(&r.videos), vec!["a", "b", "c", "d"]);
    assert!(!r.videos[0].new && !r.videos[1].new);
    assert!(r.videos[2].new && r.videos[3].new);
    assert!(r.list_state.selected.is_none());
}

#[test]
fn update_prefers_the_url_file_name() {
    let item = url_channel("feed", "My name", "", date_always());
    let updates = channel("feed", "fetched name", vec![video("a", "feed", "1")]);
    let r = update_channel(&item, updates, &vec![]);
    assert_eq!(r.name, "My name");
    assert_eq!(links(&r.videos), vec!["a"]);
    assert!(r.videos[0].new);
}

#[test]
fn update_twice_changes_nothing() {
    let item = url_channel("feed", "", "T", date_always());
    let history = vec![channel("feed", "n", vec![video("a", "feed", "1")])];
    let mk = || channel("feed", "fetched", vec![video("a", "feed", "1"), video("b", "feed", "2")]);
    let once = update_channel(&item, mk(), &history);
    let twice = update_channel(&item, mk(), &vec![once.clone()]);
    assert_eq!(links(&once.videos), links(&twice.videos));
    assert_eq!(once.name, twice.name);
    assert_eq!(once.tag, twice.tag);
    assert_eq!(
        once.videos.iter().map(|v| v.new).collect::<Vec<_>>(),
        twice.videos.iter().map(|v| v.new).collect::<Vec<_>>()
    );
    assert!(contains_link(&twice.videos, &String::from("b")));
    assert!(!contains_link(&twice.videos, &String::from("z")));
}

#[test]
fn combining_downloads() {
    let e = combine_downloads(vec![]).unwrap_err();
    assert_eq!(e, "No new content found");
    let a = channel("u1", "first", vec![video("a", "u1", "1")]);
    let b = channel("u2", "second", vec![video("b", "u2", "2"), video("c", "u2", "3")]);
    let c = combine_downloads(vec![a, b]).unwrap();
    assert_eq!(c.id, "u1");
    assert_eq!(c.name, "first");
    assert_eq!(links(&c.videos), vec!["a", "b", "c"]);
}

#[test]
fn messages() {
    let e = String::from("boom");
    assert_eq!(update_failure_message(&e), "Could not update channel: boom");
    assert_eq!(fetch_failure_message(&e), "Could not GET url: boom");
    assert_eq!(parse_failure_message(&e), "Could not parse: boom");
}

#[test]
fn resolving_a_refresh_job() {
    let item = url_channel("u1", "", "", date_always());
    let urls = vec![String::from("u1")];
    let history = vec![channel("u1", "known", vec![video("a", "u1", "2021-01"), video("x", "elsewhere", "2021-09")])];

    // not due: the known channel, arranged
    let (c, note) = resolve_channel(&item, None, &history, &urls);
    assert!(note.is_none());
    let c = c.unwrap();
    assert_eq!(c.name, "known");
    assert_eq!(links(&c.videos), vec!["a"]);

    // failed fetch: the known channel and a notice
    let (c, note) = resolve_channel(&item, Some(Err(String::from("down"))), &history, &urls);
    assert_eq!(note.unwrap(), "Could not update channel: down");
    assert_eq!(links(&c.unwrap().videos), vec!["a"]);

    // failed fetch of an unknown channel: nothing
    let (c, note) = resolve_channel(&item, Some(Err(String::from("down"))), &vec![], &urls);
    assert!(c.is_none());
    assert!(note.is_some());

    // successful fetch: merged and arranged
    let updates = channel("u1", "fetched", vec![video("b", "u1", "2021-02")]);
    let (c, note) = resolve_channel(&item, Some(Ok(updates)), &history, &urls);
    assert!(note.is_none());
    let c = c.unwrap();
    assert_eq!(c.name, "fetched");
    assert_eq!(links(&c.videos), vec!["b", "a"]);
    assert!(c.videos[0].new);
}

#[test]
fn collecting_refreshed_channels() {
    let list = collect_channels(
        vec![Some(channel("a", "A", vec![])), None, Some(channel("b", "B", vec![]))],
        false,
    );
    assert_eq!(list.channels.len(), 2);
    assert_eq!(list.channels[0].id, "a");
    assert_eq!(list.channels[1].id, "b");
    assert_eq!(list.list_state.selected, Some(0));
    let empty = collect_channels(vec![None], false);
    assert!(empty.channels.is_empty());
    assert_eq!(empty.list_state.selected, Some(0));
}

fn atom() -> AtomFeed {
    AtomFeed {
        title: String::from("Atom channel"),
        entries: vec![AtomEntry {
            title: String::from("entry"),
            link: String::from("https://video/1"),
            published: String::from("2021-03-02T18:55:52+00:00"),
        }],
    }
}

fn rss() -> RssFeed {
    RssFeed {
        title: String::from("TITLE"),
        link: String::from("http://example.com"),
        items: vec![RssItem {
            title: String::from("VIDEO TITLE"),
            link: String::from("VIDEO LINK"),
            pub_date: String::from("Tue, 02 Mar 2021 18:55:52 UT"),
        }],
    }
}

#[test]
fn feeds_become_channels() {
    let origin = String::from("https://origin");
    let c = channel_from_feeds(Some(atom()), Some(rss()), &origin).unwrap();
    assert_eq!(c.name, "Atom channel");
    assert_eq!(c.id, "https://origin");
    assert_eq!(c.videos[0].link, "https://video/1");
    assert_eq!(c.videos[0].channel_link, "https://origin");
    assert_eq!(c.videos[0].pub_date, "2021-03-02T18:55:52+00:00");
    assert!(!c.videos[0].new && !c.videos[0].marked);

    let c = channel_from_feeds(None, Some(rss()), &origin).unwrap();
    assert_eq!(c.name, "TITLE");
    assert_eq!(c.videos[0].title, "VIDEO TITLE");
    assert_eq!(c.videos[0].pub_date, "Tue, 02 Mar 2021 18:55:52 UT");

    let e = channel_from_feeds(None, None, &origin).unwrap_err();
    assert_eq!(e, "Could not parse feed");
}

#[test]
fn equal_dates_keep_their_order() {
    let vs = vec![video("p", "u", "same"), video("q", "u", "same"), video("r", "u", "same")];
    assert_eq!(links(&sort_videos_by_date(&vs)), vec!["p", "q", "r"]);
    let ascending = vec![video("a", "u", "1"), video("b", "u", "2"), video("c", "u", "2")];
    assert_eq!(links(&sort_videos_by_date(&ascending)), vec!["a", "b", "c"]);
}

fn tagged(id: &str, name: &str, tag: &str) -> Channel {
    let mut c = channel(id, name, vec![]);
    c.tag = String::from(tag);
    c
}

#[test]
fn channels_are_sorted_by_name_or_tag() {
    let results = || {
        vec![
            Some(tagged("1", "Tom", "b")),
            Some(tagged("2", "Anna", "c")),
            None,
            Some(tagged("3", "Max", "a")),
            Some(tagged("4", "Anna", "a")),
        ]
    };
    let by_name = collect_channels(results(), false);
    let ids: Vec<String> = by_name.channels.iter().map(|c| c.id.clone()).collect();
    assert_eq!(ids, vec!["2", "4", "3", "1"]);
    let by_tag = collect_channels(results(), true);
    let ids: Vec<String> = by_tag.channels.iter().map(|c| c.id.clone()).collect();
    assert_eq!(ids, vec!["3", "4", "1", "2"]);
    assert_eq!(by_tag.list_state.selected, Some(0));
    assert!(sort_channels(vec![], true).is_empty());
}

#[test]
fn job_order_does_not_change_the_list() {
    let a = collect_channels(vec![Some(tagged("1", "B", "")), None, Some(tagged("2", "A", ""))], false);
    let b = collect_channels(vec![Some(tagged("2", "A", "")), Some(tagged("1", "B", "")), None], false);
    let ia: Vec<String> = a.channels.iter().map(|c| c.id.clone()).collect();
    let ib: Vec<String> = b.channels.iter().map(|c| c.id.clone()).collect();
    assert_eq!(ia, ib);
}
