//! The data the viewer works on: videos, channels, the channel list, and the
//! cursor of a list.

use vstd::prelude::*;

verus! {

/// The cursor of a list: the index of the selected row, if any.
#[derive(Clone, Copy, Debug, PartialEq, Eq, Structural)]
pub struct ListState {
    pub selected: Option<usize>,
}

impl ListState {
    /// A cursor with nothing selected.
    pub fn new() -> (r: ListState)
        ensures
            r.selected == None::<usize>,
    {
        ListState { selected: None }
    }

    /// The selected row.
    pub fn selected(&self) -> (r: Option<usize>)
        ensures
            r == self.selected,
    {
        self.selected
    }

    /// Selects the row `index`, or nothing.
    pub fn select(&mut self, index: Option<usize>)
        ensures
            final(self).selected == index,
    {
        self.selected = index;
    }
}

/// The cursor after a step down a list of `len` rows: the first row when none
/// was selected, the next row, or the last row where there is no next one. On an
/// empty list the cursor does not move.
pub open spec fn step_down(sel: Option<usize>, len: nat) -> Option<usize> {
    if len == 0 {
        sel
    } else {
        match sel {
            None => Some(0usize),
            Some(i) => if i + 1 < len {
                Some((i + 1) as usize)
            } else {
                Some((len - 1) as usize)
            },
        }
    }
}

/// The cursor after a step up a list of `len` rows: the first row when none
/// was selected, the previous row, or the first row where there is no previous
/// one; a cursor beyond the end goes to the last row. On an empty list the
/// cursor does not move.
pub open spec fn step_up(sel: Option<usize>, len: nat) -> Option<usize> {
    if len == 0 {
        sel
    } else {
        match sel {
            None => Some(0usize),
            Some(i) => if i == 0 {
                Some(0usize)
            } else if i <= len {
                Some((i - 1) as usize)
            } else {
                Some((len - 1) as usize)
            },
        }
    }
}

/// Moves a cursor one row down a list of `len` rows.
pub fn next_index(sel: Option<usize>, len: usize) -> (r: Option<usize>)
    ensures
        r == step_down(sel, len as nat),
{
    if len == 0 {
        sel
    } else {
        match sel {
            None => Some(0),
            Some(i) => if i < len - 1 {
                Some(i + 1)
            } else {
                Some(len - 1)
            },
        }
    }
}

/// Moves a cursor one row up a list of `len` rows.
pub fn prev_index(sel: Option<usize>, len: usize) -> (r: Option<usize>)
    ensures
        r == step_up(sel, len as nat),
{
    if len == 0 {
        sel
    } else {
        match sel {
            None => Some(0),
            Some(i) => if i == 0 {
                Some(0)
            } else if i <= len {
                Some(i - 1)
            } else {
                Some(len - 1)
            },
        }
    }
}

/// A step in either direction on a non-empty list leaves the cursor on a row
/// of the list.
pub proof fn lemma_steps_stay_in_list(sel: Option<usize>, len: nat)
    requires
        len > 0,
        len <= usize::MAX,
    ensures
        step_down(sel, len) matches Some(i) && i < len,
        step_up(sel, len) matches Some(i) && i < len,
{
}

/// A video of a channel.
#[derive(Debug)]
pub struct Video {
    pub title: String,
    pub link: String,
    /// The feed url that the video was fetched from.
    pub channel_link: String,
    pub pub_date: String,
    pub marked: bool,
    pub new: bool,
}

impl Clone for Video {
    fn clone(&self) -> (r: Self)
        ensures
            r == *self,
    {
        Video {
            title: self.title.clone(),
            link: self.link.clone(),
            channel_link: self.channel_link.clone(),
            pub_date: self.pub_date.clone(),
            marked: self.marked,
            new: self.new,
        }
    }
}

impl Video {
    /// A video with empty texts, neither marked nor new.
    pub fn new() -> (r: Video)
        ensures
            r.title@ == Seq::<char>::empty(),
            r.link@ == Seq::<char>::empty(),
            r.channel_link@ == Seq::<char>::empty(),
            r.pub_date@ == Seq::<char>::empty(),
            !r.marked,
            !r.new,
    {
        Video {
            title: String::new(),
            link: String::new(),
            channel_link: String::new(),
            pub_date: String::new(),
            marked: false,
            new: false,
        }
    }

    /// Marks the video as seen, or not.
    pub fn mark(&mut self, value: bool)
        ensures
            *final(self) == (Video { marked: value, ..*old(self) }),
    {
        self.marked = value;
    }
}

/// Copies a list of videos.
pub fn clone_videos(videos: &Vec<Video>) -> (r: Vec<Video>)
    ensures
        r@ == videos@,
{
    let r = videos.clone();
    assert(r@ =~= videos@) by {
        assert forall|i: int| 0 <= i < videos@.len() implies r@[i] == videos@[i] by {
            assert(cloned::<Video>(videos[i], r[i]));
        }
    }
    r
}

/// What a channel holds, as plain values.
pub struct ChannelView {
    pub id: Seq<char>,
    pub name: Seq<char>,
    pub tag: Seq<char>,
    pub videos: Seq<Video>,
    pub selected: Option<usize>,
}

/// A channel: one entry of the url file, with the videos known of it.
#[derive(Debug)]
pub struct Channel {
    /// The feed url, or, for a custom channel, its name.
    pub id: String,
    pub name: String,
    pub tag: String,
    pub videos: Vec<Video>,
    pub list_state: ListState,
}

impl View for Channel {
    type V = ChannelView;

    open spec fn view(&self) -> ChannelView {
        ChannelView {
            id: self.id@,
            name: self.name@,
            tag: self.tag@,
            videos: self.videos@,
            selected: self.list_state.selected,
        }
    }
}

impl Clone for Channel {
    fn clone(&self) -> (r: Self)
        ensures
            r@ == self@,
    {
        Channel {
            id: self.id.clone(),
            name: self.name.clone(),
            tag: self.tag.clone(),
            videos: clone_videos(&self.videos),
            list_state: self.list_state,
        }
    }
}

impl Channel {
    /// A channel with empty texts, no videos and no selection.
    pub fn new() -> (r: Channel)
        ensures
            r@.id == Seq::<char>::empty(),
            r@.name == Seq::<char>::empty(),
            r@.tag == Seq::<char>::empty(),
            r@.videos == Seq::<Video>::empty(),
            r@.selected == None::<usize>,
    {
        Channel {
            id: String::new(),
            name: String::new(),
            tag: String::new(),
            videos: Vec::new(),
            list_state: ListState::new(),
        }
    }

    /// An empty channel with the given id.
    pub fn new_with_id(id: &String) -> (r: Channel)
        ensures
            r@.id == id@,
            r@.name == Seq::<char>::empty(),
            r@.tag == Seq::<char>::empty(),
            r@.videos == Seq::<Video>::empty(),
            r@.selected == None::<usize>,
    {
        Channel {
            id: id.clone(),
            name: String::new(),
            tag: String::new(),
            videos: Vec::new(),
            list_state: ListState::new(),
        }
    }

    /// Moves the cursor one video down.
    pub fn next(&mut self)
        ensures
            final(self)@ == (ChannelView {
                selected: step_down(old(self)@.selected, old(self)@.videos.len()),
                ..old(self)@
            }),
    {
        let s = next_index(self.list_state.selected(), self.videos.len());
        self.list_state.select(s);
    }

    /// Moves the cursor one video up.
    pub fn prev(&mut self)
        ensures
            final(self)@ == (ChannelView {
                selected: step_up(old(self)@.selected, old(self)@.videos.len()),
                ..old(self)@
            }),
    {
        let s = prev_index(self.list_state.selected(), self.videos.len());
        self.list_state.select(s);
    }
}

/// What the channel list holds, as plain values.
pub struct ChannelListView {
    pub channels: Seq<ChannelView>,
    pub selected: Option<usize>,
}

/// The list of channels shown in the left pane.
#[derive(Debug)]
pub struct ChannelList {
    pub channels: Vec<Channel>,
    pub list_state: ListState,
}

/// The views of a sequence of channels.
pub open spec fn channel_views(cs: Seq<Channel>) -> Seq<ChannelView> {
    cs.map_values(|c: Channel| c@)
}

impl View for ChannelList {
    type V = ChannelListView;

    open spec fn view(&self) -> ChannelListView {
        ChannelListView { channels: channel_views(self.channels@), selected: self.list_state.selected }
    }
}

impl ChannelList {
    /// An empty list with no selection.
    pub fn new() -> (r: ChannelList)
        ensures
            r@.channels == Seq::<ChannelView>::empty(),
            r@.selected == None::<usize>,
    {
        let r = ChannelList { channels: Vec::new(), list_state: ListState::new() };
        assert(r@.channels =~= Seq::<ChannelView>::empty());
        r
    }

    /// Moves the cursor one channel down.
    pub fn next(&mut self)
        ensures
            final(self)@ == (ChannelListView {
                selected: step_down(old(self)@.selected, old(self)@.channels.len()),
                ..old(self)@
            }),
    {
        let s = next_index(self.list_state.selected(), self.channels.len());
        self.list_state.select(s);
    }

    /// Moves the cursor one channel up.
    pub fn prev(&mut self)
        ensures
            final(self)@ == (ChannelListView {
                selected: step_up(old(self)@.selected, old(self)@.channels.len()),
                ..old(self)@
            }),
    {
        let s = prev_index(self.list_state.selected(), self.channels.len());
        self.list_state.select(s);
    }
}

/// Replacing a channel of a sequence replaces its view.
pub proof fn lemma_channel_views_update(cs: Seq<Channel>, i: int, c: Channel)
    requires
        0 <= i < cs.len(),
    ensures
        channel_views(cs.update(i, c)) == channel_views(cs).update(i, c@),
{
    assert(channel_views(cs.update(i, c)) =~= channel_views(cs).update(i, c@));
}

/// The number of videos of `videos` not marked as seen.
pub open spec fn unseen_count(videos: Seq<Video>) -> nat
    decreases videos.len(),
{
    if videos.len() == 0 {
        0
    } else {
        unseen_count(videos.drop_last()) + if videos.last().marked { 0nat } else { 1nat }
    }
}

proof fn lemma_unseen_count_bound(videos: Seq<Video>)
    ensures
        unseen_count(videos) <= videos.len(),
    decreases videos.len(),
{
    if videos.len() > 0 {
        lemma_unseen_count_bound(videos.drop_last());
    }
}

impl Channel {
    /// The number of videos of the channel not marked as seen.
    pub fn unseen_count(&self) -> (r: usize)
        ensures
            r == unseen_count(self@.videos),
    {
        let mut n: usize = 0;
        let mut i: usize = 0;
        while i < self.videos.len()
            invariant
                i <= self.videos@.len(),
                n == unseen_count(self.videos@.take(i as int)),
            decreases self.videos@.len() - i,
        {
            proof {
                assert(self.videos@.take(i + 1).drop_last() =~= self.videos@.take(i as int));
                lemma_unseen_count_bound(self.videos@.take(i as int));
            }
            if !self.videos[i].marked {
                n = n + 1;
            }
            i = i + 1;
        }
        assert(self.videos@.take(i as int) =~= self.videos@);
        n
    }
}

/// Whether the channel is listed: every channel is where empty channels are
/// shown, and otherwise only those with a video not yet seen.
pub open spec fn shown(c: ChannelView, show_empty: bool) -> bool {
    show_empty || unseen_count(c.videos) > 0
}

/// The first listed channel at or after the row `from`.
pub open spec fn shown_at_or_after(cs: Seq<ChannelView>, from: int, show_empty: bool) -> Option<usize>
    decreases cs.len() - from,
{
    if from < 0 || from >= cs.len() {
        None
    } else if shown(cs[from], show_empty) {
        Some(from as usize)
    } else {
        shown_at_or_after(cs, from + 1, show_empty)
    }
}

/// The last listed channel before the row `upto`.
pub open spec fn shown_before(cs: Seq<ChannelView>, upto: int, show_empty: bool) -> Option<usize>
    decreases upto,
{
    if upto <= 0 {
        None
    } else if upto > cs.len() {
        shown_before(cs, cs.len() as int, show_empty)
    } else if shown(cs[upto - 1], show_empty) {
        Some((upto - 1) as usize)
    } else {
        shown_before(cs, upto - 1, show_empty)
    }
}

/// The channel cursor after a step down the listed channels: where all are
/// listed, as `step_down`; otherwise to the next listed channel, to the first
/// listed one where none was selected, and nowhere where there is none.
pub open spec fn list_step_down(sel: Option<usize>, cs: Seq<ChannelView>, show_empty: bool) -> Option<usize> {
    if show_empty {
        step_down(sel, cs.len())
    } else {
        match sel {
            None => shown_at_or_after(cs, 0, show_empty),
            Some(i) => match shown_at_or_after(cs, i + 1, show_empty) {
                Some(j) => Some(j),
                None => sel,
            },
        }
    }
}

/// The channel cursor after a step up the listed channels: where all are
/// listed, as `step_up`; otherwise to the previous listed channel, to the
/// first listed one where none was selected, and nowhere where there is none.
pub open spec fn list_step_up(sel: Option<usize>, cs: Seq<ChannelView>, show_empty: bool) -> Option<usize> {
    if show_empty {
        step_up(sel, cs.len())
    } else {
        match sel {
            None => shown_at_or_after(cs, 0, show_empty),
            Some(i) => match shown_before(cs, i as int, show_empty) {
                Some(j) => Some(j),
                None => sel,
            },
        }
    }
}

/// The rows of the listed channels, in order.
pub open spec fn shown_rows(cs: Seq<ChannelView>, show_empty: bool) -> Seq<usize>
    decreases cs.len(),
{
    if cs.len() == 0 {
        Seq::empty()
    } else if shown(cs.last(), show_empty) {
        shown_rows(cs.drop_last(), show_empty).push((cs.len() - 1) as usize)
    } else {
        shown_rows(cs.drop_last(), show_empty)
    }
}

/// The searches for a listed channel find listed channels in their range.
pub proof fn lemma_shown_searches(cs: Seq<ChannelView>, k: int, show_empty: bool)
    requires
        cs.len() <= usize::MAX,
    ensures
        shown_at_or_after(cs, k, show_empty) matches Some(j) ==> k <= j < cs.len() && shown(
            cs[j as int],
            show_empty,
        ),
        shown_before(cs, k, show_empty) matches Some(j) ==> j < k && j < cs.len() && shown(
            cs[j as int],
            show_empty,
        ),
        show_empty && 0 <= k < cs.len() ==> shown_at_or_after(cs, k, show_empty) == Some(k as usize),
    decreases cs.len() + (if k < 0 { 0 } else { k }) + 1,
{
    if 0 <= k < cs.len() && !shown(cs[k], show_empty) {
        lemma_shown_searches_after(cs, k + 1, show_empty);
    }
    lemma_shown_searches_before(cs, k, show_empty);
}

proof fn lemma_shown_searches_after(cs: Seq<ChannelView>, k: int, show_empty: bool)
    requires
        cs.len() <= usize::MAX,
    ensures
        shown_at_or_after(cs, k, show_empty) matches Some(j) ==> k <= j < cs.len() && shown(
            cs[j as int],
            show_empty,
        ),
    decreases cs.len() - k,
{
    if 0 <= k < cs.len() && !shown(cs[k], show_empty) {
        lemma_shown_searches_after(cs, k + 1, show_empty);
    }
}

proof fn lemma_shown_searches_before(cs: Seq<ChannelView>, k: int, show_empty: bool)
    requires
        cs.len() <= usize::MAX,
    ensures
        shown_before(cs, k, show_empty) matches Some(j) ==> j < k && j < cs.len() && shown(
            cs[j as int],
            show_empty,
        ),
    decreases k,
{
    if k > 0 {
        if k > cs.len() {
            lemma_shown_searches_before(cs, cs.len() as int, show_empty);
        } else if !shown(cs[k - 1], show_empty) {
            lemma_shown_searches_before(cs, k - 1, show_empty);
        }
    }
}

/// Whether the channel at `row` is listed.
pub fn is_shown(channels: &Vec<Channel>, row: usize, show_empty: bool) -> (r: bool)
    requires
        row < channels@.len(),
    ensures
        r == shown(channel_views(channels@)[row as int], show_empty),
{
    show_empty || channels[row].unseen_count() > 0
}

/// The first listed channel at or after the row `from`.
pub fn find_shown_at_or_after(channels: &Vec<Channel>, from: usize, show_empty: bool) -> (r: Option<usize>)
    ensures
        r == shown_at_or_after(channel_views(channels@), from as int, show_empty),
{
    let ghost cs = channel_views(channels@);
    let mut i = from;
    while i < channels.len()
        invariant
            from <= i,
            cs == channel_views(channels@),
            shown_at_or_after(cs, from as int, show_empty) == shown_at_or_after(cs, i as int, show_empty),
        decreases channels@.len() - i,
    {
        if is_shown(channels, i, show_empty) {
            return Some(i);
        }
        i = i + 1;
    }
    None
}

/// The last listed channel before the row `upto`.
pub fn find_shown_before(channels: &Vec<Channel>, upto: usize, show_empty: bool) -> (r: Option<usize>)
    ensures
        r == shown_before(channel_views(channels@), upto as int, show_empty),
{
    let ghost cs = channel_views(channels@);
    let mut i = if upto > channels.len() { channels.len() } else { upto };
    assert(shown_before(cs, upto as int, show_empty) == shown_before(cs, i as int, show_empty));
    while i > 0
        invariant
            i <= channels@.len(),
            cs == channel_views(channels@),
            shown_before(cs, upto as int, show_empty) == shown_before(cs, i as int, show_empty),
        decreases i,
    {
        if is_shown(channels, i - 1, show_empty) {
            return Some(i - 1);
        }
        i = i - 1;
    }
    None
}

impl ChannelList {
    /// Moves the cursor one listed channel down.
    pub fn next_listed(&mut self, show_empty: bool)
        ensures
            final(self)@ == (ChannelListView {
                selected: list_step_down(old(self)@.selected, old(self)@.channels, show_empty),
                ..old(self)@
            }),
    {
        if show_empty {
            self.next();
        } else {
            let s = match self.list_state.selected() {
                None => find_shown_at_or_after(&self.channels, 0, show_empty),
                Some(i) => {
                    let n = self.channels.len();
                    let found = if i < n {
                        find_shown_at_or_after(&self.channels, i + 1, show_empty)
                    } else {
                        None
                    };
                    match found {
                        Some(j) => Some(j),
                        None => Some(i),
                    }
                },
            };
            self.list_state.select(s);
        }
    }

    /// Moves the cursor one listed channel up.
    pub fn prev_listed(&mut self, show_empty: bool)
        ensures
            final(self)@ == (ChannelListView {
                selected: list_step_up(old(self)@.selected, old(self)@.channels, show_empty),
                ..old(self)@
            }),
    {
        if show_empty {
            self.prev();
        } else {
            let s = match self.list_state.selected() {
                None => find_shown_at_or_after(&self.channels, 0, show_empty),
                Some(i) => match find_shown_before(&self.channels, i, show_empty) {
                    Some(j) => Some(j),
                    None => Some(i),
                },
            };
            self.list_state.select(s);
        }
    }

    /// The rows of the listed channels, in order.
    pub fn shown_rows(&self, show_empty: bool) -> (r: Vec<usize>)
        ensures
            r@ == shown_rows(self@.channels, show_empty),
    {
        let ghost cs = self@.channels;
        let mut r: Vec<usize> = Vec::new();
        let mut i: usize = 0;
        assert(cs.take(0) =~= Seq::<ChannelView>::empty());
        while i < self.channels.len()
            invariant
                i <= cs.len(),
                cs == self@.channels,
                r@ == shown_rows(cs.take(i as int), show_empty),
            decreases cs.len() - i,
        {
            proof {
                assert(cs.take(i + 1).drop_last() =~= cs.take(i as int));
                assert(cs.take(i + 1).last() == cs[i as int]);
            }
            if is_shown(&self.channels, i, show_empty) {
                r.push(i);
            }
            i = i + 1;
        }
        assert(cs.take(i as int) =~= cs);
        r
    }
}


/// A step moves the cursor by one row where there is a row to move to, and a
/// step down followed by a step up comes back to the same row.
pub proof fn lemma_steps_move_one_row(i: usize, len: nat)
    requires
        len <= usize::MAX,
    ensures
        i + 1 < len ==> step_down(Some(i), len) == Some((i + 1) as usize),
        0 < i < len ==> step_up(Some(i), len) == Some((i - 1) as usize),
        i + 1 < len ==> step_up(step_down(Some(i), len), len) == Some(i),
        0 < i < len ==> step_down(step_up(Some(i), len), len) == Some(i),
        i + 1 == len ==> step_down(Some(i), len) == Some(i),
        i == 0 && len > 0 ==> step_up(Some(i), len) == Some(i),
{
}
} // verus!
