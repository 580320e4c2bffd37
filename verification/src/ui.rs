//! The two-pane terminal interface: which pane is shown, where the cursors
//! stand, and what each key press does to them.

use vstd::prelude::*;
use crate::internal::{
    Channel, ChannelList, ChannelListView, ChannelView, Video, channel_views, lemma_channel_views_update,
    lemma_shown_searches, list_step_down, list_step_up, shown, shown_at_or_after, find_shown_at_or_after,
    is_shown, step_down, step_up,
};

verus! {

/// The pane that has the focus: the channel list, or the videos of a channel.
#[derive(Clone, Copy, Debug, PartialEq, Eq, Structural)]
pub enum Screen {
    Channels,
    Videos,
}

/// The settings of the viewer.
#[derive(Clone, Copy, Debug, PartialEq, Eq, Structural)]
pub struct Config {
    /// List channels that have no video left unseen.
    pub show_empty_channels: bool,
    /// Mark a video as seen when it is opened.
    pub mark_on_open: bool,
    /// Move the video cursor one row down when a video is marked.
    pub down_on_mark: bool,
    /// Sort channels by tag; by name otherwise.
    pub sort_by_tag: bool,
}

impl Default for Config {
    /// The settings where none are given: empty channels listed, videos
    /// marked when opened, the cursor moved down on marking, channels sorted
    /// by name.
    fn default() -> (r: Config)
        ensures
            r == (Config { show_empty_channels: true, mark_on_open: true, down_on_mark: true, sort_by_tag: false }),
    {
        Config { show_empty_channels: true, mark_on_open: true, down_on_mark: true, sort_by_tag: false }
    }
}

/// A key press, as far as the viewer tells keys apart.
#[derive(Clone, Copy, Debug, PartialEq, Eq, Structural)]
pub enum Key {
    Char(char),
    Esc,
    Left,
    Right,
    Up,
    Down,
    Other,
}

/// What the surroundings of the viewer are to do after a key press.
#[derive(Debug)]
pub enum Action {
    /// Nothing.
    Nothing,
    /// Leave the viewer.
    Quit,
    /// Draw the viewer anew.
    Redraw,
    /// Draw the viewer anew and write the channel list to the history.
    RedrawAndSave,
    /// Fetch all channels anew in the background and draw the viewer anew.
    Refresh,
    /// Open the video with the given link in the video player, draw the
    /// viewer anew and write the channel list to the history.
    Open(String),
    /// Copy the given video link to the clipboard.
    Copy(String),
}

/// What an `Action` asks for, as a plain value.
pub enum Effect {
    Nothing,
    Quit,
    Redraw,
    RedrawAndSave,
    Refresh,
    Open(Seq<char>),
    Copy(Seq<char>),
}

/// The effect that an action asks for.
pub open spec fn effect_of(a: Action) -> Effect {
    match a {
        Action::Nothing => Effect::Nothing,
        Action::Quit => Effect::Quit,
        Action::Redraw => Effect::Redraw,
        Action::RedrawAndSave => Effect::RedrawAndSave,
        Action::Refresh => Effect::Refresh,
        Action::Open(link) => Effect::Open(link@),
        Action::Copy(link) => Effect::Copy(link@),
    }
}

/// The state of the viewer, drawing aside.
#[derive(Debug)]
pub struct App {
    pub current_screen: Screen,
    pub app_title: String,
    pub channel_list: ChannelList,
    /// The channel whose videos the right pane shows.
    pub current_selected: usize,
    pub update_line: String,
    pub config: Config,
}

/// The state of the viewer, as plain values.
pub struct AppView {
    pub screen: Screen,
    pub title: Seq<char>,
    pub list: ChannelListView,
    pub current_selected: usize,
    pub update_line: Seq<char>,
    pub config: Config,
}

impl View for App {
    type V = AppView;

    open spec fn view(&self) -> AppView {
        AppView {
            screen: self.current_screen,
            title: self.app_title@,
            list: self.channel_list@,
            current_selected: self.current_selected,
            update_line: self.update_line@,
            config: self.config,
        }
    }
}

/// The channel whose videos the right pane shows.
pub open spec fn selected_channel(s: AppView) -> ChannelView {
    s.list.channels[s.current_selected as int]
}

/// The state with the channel of the right pane replaced by `c`.
pub open spec fn with_selected_channel(s: AppView, c: ChannelView) -> AppView {
    AppView {
        list: ChannelListView { channels: s.list.channels.update(s.current_selected as int, c), ..s.list },
        ..s
    }
}

/// The state after opening the channel under the channel cursor: its videos
/// get the focus with the first of them selected, and the channel cursor is
/// hidden. Without a channel cursor nothing happens.
pub open spec fn opened(s: AppView) -> AppView {
    match s.list.selected {
        None => s,
        Some(i) => AppView {
            screen: Screen::Videos,
            current_selected: i,
            list: ChannelListView {
                channels: s.list.channels.update(
                    i as int,
                    ChannelView { selected: Some(0usize), ..s.list.channels[i as int] },
                ),
                selected: None,
            },
            ..s
        },
    }
}

/// The state after closing the right pane: the channel list gets the focus,
/// with its cursor on the channel that was open.
pub open spec fn closed(s: AppView) -> AppView {
    AppView {
        screen: Screen::Channels,
        list: ChannelListView { selected: Some(s.current_selected), ..s.list },
        ..s
    }
}

/// The channel with its video cursor one row down.
pub open spec fn video_down(c: ChannelView) -> ChannelView {
    ChannelView { selected: step_down(c.selected, c.videos.len()), ..c }
}

/// The channel with its video cursor one row up.
pub open spec fn video_up(c: ChannelView) -> ChannelView {
    ChannelView { selected: step_up(c.selected, c.videos.len()), ..c }
}

/// The channel with the video under its cursor marked as seen, or not.
pub open spec fn marked_selected(c: ChannelView, value: bool) -> ChannelView {
    let i = c.selected.unwrap() as int;
    ChannelView { videos: c.videos.update(i, Video { marked: value, ..c.videos[i] }), ..c }
}

/// The channel after marking the video under its cursor as seen, or not, and
/// then, where the settings say so, moving the cursor one row down.
pub open spec fn after_mark(c: ChannelView, value: bool, config: Config) -> ChannelView {
    if config.down_on_mark {
        video_down(marked_selected(c, value))
    } else {
        marked_selected(c, value)
    }
}

/// The state after opening the video under the cursor of the right pane: it is
/// marked as seen where the settings say so.
pub open spec fn after_open_video(s: AppView) -> AppView {
    if s.config.mark_on_open {
        with_selected_channel(s, marked_selected(selected_channel(s), true))
    } else {
        s
    }
}

/// The channel cursor once channels without unseen videos may be hidden: it
/// stays on a listed channel, and otherwise goes to the first listed one.
pub open spec fn listed_selection(sel: Option<usize>, cs: Seq<ChannelView>, show_empty: bool) -> Option<usize> {
    match sel {
        Some(i) => if i < cs.len() && shown(cs[i as int], show_empty) {
            sel
        } else {
            shown_at_or_after(cs, 0, show_empty)
        },
        None => None,
    }
}

/// The state after switching between listing and hiding the channels without
/// unseen videos; on the channel list, the cursor stays on a listed channel.
pub open spec fn toggled(s: AppView) -> AppView {
    let show = !s.config.show_empty_channels;
    let config = Config { show_empty_channels: show, ..s.config };
    match s.screen {
        Screen::Channels => AppView {
            config: config,
            list: ChannelListView { selected: listed_selection(s.list.selected, s.list.channels, show), ..s.list },
            ..s
        },
        Screen::Videos => AppView { config: config, ..s },
    }
}

/// The video under the cursor of the right pane.
pub open spec fn selected_video(s: AppView) -> Video {
    let c = selected_channel(s);
    c.videos[c.selected.unwrap() as int]
}

/// The channel of the right pane exists.
pub open spec fn has_selected_channel(s: AppView) -> bool {
    s.current_selected < s.list.channels.len()
}

/// The video under the cursor of the right pane exists.
pub open spec fn has_selected_video(s: AppView) -> bool {
    &&& has_selected_channel(s)
    &&& selected_channel(s).selected matches Some(i) && i < selected_channel(s).videos.len()
}

/// The channel under the channel cursor, if any, exists.
pub open spec fn can_open(s: AppView) -> bool {
    s.list.selected matches Some(i) ==> i < s.list.channels.len()
}

/// The keys that open the channel under the cursor.
pub open spec fn is_open_key(k: Key) -> bool {
    k == Key::Char('\n') || k == Key::Char('l') || k == Key::Right
}

/// The state in which the key `k` can be handled: what it acts on exists.
pub open spec fn key_allowed(s: AppView, k: Key) -> bool {
    match s.screen {
        Screen::Channels => (is_open_key(k) || k == Key::Char('o')) ==> can_open(s),
        Screen::Videos => {
            &&& (k == Key::Char('j') || k == Key::Down || k == Key::Char('k') || k == Key::Up)
                ==> has_selected_channel(s)
            &&& (k == Key::Char('o') || k == Key::Char('m') || k == Key::Char('M')) ==> has_selected_video(s)
        },
    }
}

/// The state after the key press `k` in the state `s`, and what the
/// surroundings are to do.
pub open spec fn after_key(s: AppView, k: Key) -> (AppView, Effect) {
    let show = s.config.show_empty_channels;
    match s.screen {
        Screen::Channels => {
            if k == Key::Char('q') {
                (s, Effect::Quit)
            } else if k == Key::Char('j') || k == Key::Down {
                (AppView { list: ChannelListView { selected: list_step_down(s.list.selected, s.list.channels, show), ..s.list }, ..s }, Effect::Redraw)
            } else if k == Key::Char('k') || k == Key::Up {
                (AppView { list: ChannelListView { selected: list_step_up(s.list.selected, s.list.channels, show), ..s.list }, ..s }, Effect::Redraw)
            } else if is_open_key(k) || k == Key::Char('o') {
                (opened(s), if s.list.selected is Some { Effect::Redraw } else { Effect::Nothing })
            } else if k == Key::Char('t') {
                (toggled(s), Effect::Redraw)
            } else if k == Key::Char('r') {
                (closed(s), Effect::Refresh)
            } else {
                (s, Effect::Nothing)
            }
        },
        Screen::Videos => {
            if k == Key::Char('q') || k == Key::Esc || k == Key::Char('h') || k == Key::Left {
                (closed(s), Effect::Redraw)
            } else if k == Key::Char('j') || k == Key::Down {
                (with_selected_channel(s, video_down(selected_channel(s))), Effect::Redraw)
            } else if k == Key::Char('k') || k == Key::Up {
                (with_selected_channel(s, video_up(selected_channel(s))), Effect::Redraw)
            } else if k == Key::Char('o') || k == Key::Char('l') || k == Key::Char('\n') {
                if has_selected_video(s) {
                    (after_open_video(s), Effect::Open(selected_video(s).link@))
                } else {
                    (s, Effect::Nothing)
                }
            } else if k == Key::Char('c') {
                if has_selected_video(s) {
                    (s, Effect::Copy(selected_video(s).link@))
                } else {
                    (s, Effect::Nothing)
                }
            } else if k == Key::Char('m') {
                (with_selected_channel(s, after_mark(selected_channel(s), true, s.config)), Effect::RedrawAndSave)
            } else if k == Key::Char('M') {
                (with_selected_channel(s, after_mark(selected_channel(s), false, s.config)), Effect::RedrawAndSave)
            } else if k == Key::Char('t') {
                (toggled(s), Effect::Redraw)
            } else if k == Key::Char('r') {
                (closed(s), Effect::Refresh)
            } else {
                (s, Effect::Nothing)
            }
        },
    }
}

impl App {
    /// The viewer as it starts: the channel list has the focus.
    pub fn new(app_title: String, channel_list: ChannelList, config: Config) -> (r: App)
        ensures
            r@ == (AppView {
                screen: Screen::Channels,
                title: app_title@,
                list: channel_list@,
                current_selected: 0,
                update_line: Seq::empty(),
                config: config,
            }),
    {
        App {
            current_screen: Screen::Channels,
            app_title,
            channel_list,
            current_selected: 0,
            update_line: String::new(),
            config,
        }
    }

    /// The channel whose videos the right pane shows.
    pub fn get_selected_channel(&mut self) -> (r: &mut Channel)
        requires
            has_selected_channel(old(self)@),
        ensures
            *r == old(self).channel_list.channels@[old(self).current_selected as int],
            final(self).channel_list.channels@ == old(self).channel_list.channels@.update(
                old(self).current_selected as int,
                *final(r),
            ),
            final(self).channel_list.list_state == old(self).channel_list.list_state,
            final(self).current_screen == old(self).current_screen,
            final(self).current_selected == old(self).current_selected,
            final(self).app_title == old(self).app_title,
            final(self).update_line == old(self).update_line,
            final(self).config == old(self).config,
    {
        let i = self.current_selected;
        &mut self.channel_list.channels[i]
    }

    /// The video under the cursor of the right pane.
    pub fn get_selected_video(&mut self) -> (r: &mut Video)
        requires
            has_selected_video(old(self)@),
        ensures
            *r == selected_video(old(self)@),
            final(self)@ == with_selected_channel(
                old(self)@,
                ChannelView {
                    videos: selected_channel(old(self)@).videos.update(
                        selected_channel(old(self)@).selected.unwrap() as int,
                        *final(r),
                    ),
                    ..selected_channel(old(self)@)
                },
            ),
    {
        let ghost cs = self.channel_list.channels@;
        let ghost i = self.current_selected as int;
        let c = self.get_selected_channel();
        let v = c.list_state.selected().unwrap();
        proof {
            lemma_channel_views_update(cs, i, *final(c));
        }
        &mut c.videos[v]
    }

    /// Opens the channel under the channel cursor, if there is one; tells
    /// whether there was.
    pub fn open_selected_channel(&mut self) -> (opened_one: bool)
        requires
            can_open(old(self)@),
        ensures
            final(self)@ == opened(old(self)@),
            opened_one == old(self)@.list.selected is Some,
    {
        self.current_selected = match self.channel_list.list_state.selected() {
            Some(selected) => selected,
            None => return false,
        };
        self.current_screen = Screen::Videos;
        self.channel_list.list_state.select(None);
        let ghost cs = self.channel_list.channels@;
        let ghost i = self.current_selected as int;
        self.get_selected_channel().list_state.select(Some(0));
        proof {
            lemma_channel_views_update(cs, i, self.channel_list.channels@[i]);
            assert(self.channel_list.channels@ == cs.update(i, self.channel_list.channels@[i]));
        }
        true
    }

    /// Gives the focus back to the channel list, with its cursor on the channel
    /// that was open.
    pub fn close_right_block(&mut self)
        ensures
            final(self)@ == closed(old(self)@),
    {
        self.current_screen = Screen::Channels;
        self.channel_list.list_state.select(Some(self.current_selected));
    }

    /// Whether the key press `key` can be handled in this state: whether what it
    /// acts on exists.
    pub fn can_handle(&self, key: Key) -> (r: bool)
        ensures
            r == key_allowed(self@, key),
    {
        let n = self.channel_list.channels.len();
        match self.current_screen {
            Screen::Channels => match key {
                Key::Char('\n') | Key::Char('l') | Key::Right | Key::Char('o') => {
                    match self.channel_list.list_state.selected() {
                        Some(i) => i < n,
                        None => true,
                    }
                },
                _ => true,
            },
            Screen::Videos => {
                let has_channel = self.current_selected < n;
                match key {
                    Key::Char('j') | Key::Down | Key::Char('k') | Key::Up => has_channel,
                    Key::Char('o') | Key::Char('m') | Key::Char('M') => {
                        if has_channel {
                            let c = &self.channel_list.channels[self.current_selected];
                            match c.list_state.selected() {
                                Some(i) => i < c.videos.len(),
                                None => false,
                            }
                        } else {
                            false
                        }
                    },
                    _ => true,
                }
            },
        }
    }

    /// The link of the video under the cursor of the right pane.
    fn selected_video_link(&self) -> (r: String)
        requires
            has_selected_video(self@),
        ensures
            r@ == selected_video(self@).link@,
    {
        let c = &self.channel_list.channels[self.current_selected];
        let v = c.list_state.selected().unwrap();
        c.videos[v].link.clone()
    }

    /// Moves the video cursor of the right pane one row down or up.
    fn step_video_cursor(&mut self, down: bool)
        requires
            has_selected_channel(old(self)@),
        ensures
            final(self)@ == with_selected_channel(
                old(self)@,
                if down { video_down(selected_channel(old(self)@)) } else { video_up(selected_channel(old(self)@)) },
            ),
    {
        let ghost cs = self.channel_list.channels@;
        let ghost i = self.current_selected as int;
        if down {
            self.get_selected_channel().next();
        } else {
            self.get_selected_channel().prev();
        }
        proof {
            lemma_channel_views_update(cs, i, self.channel_list.channels@[i]);
            assert(self.channel_list.channels@ == cs.update(i, self.channel_list.channels@[i]));
        }
    }

    /// Marks the video under the cursor of the right pane as seen, or not.
    fn mark_selected(&mut self, value: bool)
        requires
            has_selected_video(old(self)@),
        ensures
            final(self)@ == with_selected_channel(old(self)@, marked_selected(selected_channel(old(self)@), value)),
    {
        let ghost s0 = self@;
        let ghost c1 = marked_selected(selected_channel(s0), value);
        self.get_selected_video().mark(value);
        assert(self@.list.channels =~= with_selected_channel(s0, c1).list.channels);
    }

    /// Marks the video under the cursor of the right pane as seen, or not, and
    /// moves the cursor one row down where the settings say so.
    fn mark_and_step(&mut self, value: bool)
        requires
            has_selected_video(old(self)@),
        ensures
            final(self)@ == with_selected_channel(
                old(self)@,
                after_mark(selected_channel(old(self)@), value, old(self)@.config),
            ),
    {
        if !self.config.down_on_mark {
            self.mark_selected(value);
            return;
        }
        let ghost s0 = self@;
        let ghost c1 = marked_selected(selected_channel(s0), value);
        self.mark_selected(value);
        let ghost s1 = self@;
        assert(s1.list.channels =~= with_selected_channel(s0, c1).list.channels);
        assert(s1 == with_selected_channel(s0, c1));
        assert(selected_channel(s1) == c1);
        self.step_video_cursor(true);
        assert(self@.list.channels =~= with_selected_channel(s0, video_down(c1)).list.channels);
    }

    /// Whether the video under the cursor of the right pane exists.
    pub fn has_video_selected(&self) -> (r: bool)
        ensures
            r == has_selected_video(self@),
    {
        if self.current_selected < self.channel_list.channels.len() {
            let c = &self.channel_list.channels[self.current_selected];
            match c.list_state.selected() {
                Some(i) => i < c.videos.len(),
                None => false,
            }
        } else {
            false
        }
    }

    /// Opens the video under the cursor of the right pane: marks it as seen
    /// where the settings say so, and gives its link.
    pub fn open_selected_video(&mut self) -> (link: String)
        requires
            has_selected_video(old(self)@),
        ensures
            final(self)@ == after_open_video(old(self)@),
            link@ == selected_video(old(self)@).link@,
    {
        let link = self.selected_video_link();
        if self.config.mark_on_open {
            self.mark_selected(true);
        }
        link
    }

    /// Switches between listing and hiding the channels without unseen videos;
    /// on the channel list, keeps the cursor on a listed channel.
    pub fn toggle_empty_channels(&mut self)
        ensures
            final(self)@ == toggled(old(self)@),
    {
        let show = !self.config.show_empty_channels;
        self.config.show_empty_channels = show;
        match self.current_screen {
            Screen::Channels => {
                let sel = match self.channel_list.list_state.selected() {
                    Some(i) => if i < self.channel_list.channels.len() && is_shown(
                        &self.channel_list.channels,
                        i,
                        show,
                    ) {
                        Some(i)
                    } else {
                        find_shown_at_or_after(&self.channel_list.channels, 0, show)
                    },
                    None => None,
                };
                self.channel_list.list_state.select(sel);
            },
            Screen::Videos => {},
        }
    }

    /// Handles the key press `key`: changes the state as the key asks, and
    /// tells what the surroundings are to do.
    pub fn handle_key(&mut self, key: Key) -> (a: Action)
        requires
            key_allowed(old(self)@, key),
        ensures
            final(self)@ == after_key(old(self)@, key).0,
            effect_of(a) == after_key(old(self)@, key).1,
    {
        match key {
            Key::Char('q') => match self.current_screen {
                Screen::Channels => Action::Quit,
                Screen::Videos => {
                    self.close_right_block();
                    Action::Redraw
                },
            },
            Key::Esc | Key::Char('h') | Key::Left => match self.current_screen {
                Screen::Channels => Action::Nothing,
                Screen::Videos => {
                    self.close_right_block();
                    Action::Redraw
                },
            },
            Key::Char('j') | Key::Down => {
                match self.current_screen {
                    Screen::Channels => {
                        self.channel_list.next_listed(self.config.show_empty_channels);
                    },
                    Screen::Videos => {
                        self.step_video_cursor(true);
                    },
                }
                Action::Redraw
            },
            Key::Char('k') | Key::Up => {
                match self.current_screen {
                    Screen::Channels => {
                        self.channel_list.prev_listed(self.config.show_empty_channels);
                    },
                    Screen::Videos => {
                        self.step_video_cursor(false);
                    },
                }
                Action::Redraw
            },
            Key::Char('\n') | Key::Char('l') | Key::Right | Key::Char('o') => match self.current_screen {
                Screen::Channels => if self.open_selected_channel() {
                    Action::Redraw
                } else {
                    Action::Nothing
                },
                Screen::Videos => match key {
                    Key::Right => Action::Nothing,
                    _ => if self.has_video_selected() {
                        Action::Open(self.open_selected_video())
                    } else {
                        Action::Nothing
                    },
                },
            },
            Key::Char('c') => match self.current_screen {
                Screen::Channels => Action::Nothing,
                Screen::Videos => if self.has_video_selected() {
                    Action::Copy(self.selected_video_link())
                } else {
                    Action::Nothing
                },
            },
            Key::Char('t') => {
                self.toggle_empty_channels();
                Action::Redraw
            },
            Key::Char('m') => match self.current_screen {
                Screen::Channels => Action::Nothing,
                Screen::Videos => {
                    self.mark_and_step(true);
                    Action::RedrawAndSave
                },
            },
            Key::Char('M') => match self.current_screen {
                Screen::Channels => Action::Nothing,
                Screen::Videos => {
                    self.mark_and_step(false);
                    Action::RedrawAndSave
                },
            },
            Key::Char('r') => {
                self.close_right_block();
                Action::Refresh
            },
            _ => Action::Nothing,
        }
    }
}

/// Closing the right pane after opening a channel puts the channel cursor back
/// where it was and the focus on the channel list; the channels keep all they
/// held but the opened one's video cursor, which is on its first video.
pub proof fn lemma_close_undoes_open(s: AppView)
    requires
        s.list.selected matches Some(i) && i < s.list.channels.len(),
    ensures
        closed(opened(s)).screen == Screen::Channels,
        closed(opened(s)).list.selected == s.list.selected,
        s.list.selected == Some(closed(opened(s)).current_selected),
        closed(opened(s)).list.channels.len() == s.list.channels.len(),
        forall|j: int|
            0 <= j < s.list.channels.len() && Some(j as usize) != s.list.selected
                ==> closed(opened(s)).list.channels[j] == s.list.channels[j],
        closed(opened(s)).title == s.title,
        closed(opened(s)).update_line == s.update_line,
        closed(opened(s)).config == s.config,
{
}

/// No key press changes the title, the status line or the number of
/// channels; only `t` changes a setting, and it only flips whether channels
/// without unseen videos are listed.
pub proof fn lemma_key_keeps_frame(s: AppView, k: Key)
    requires
        key_allowed(s, k),
    ensures
        after_key(s, k).0.title == s.title,
        after_key(s, k).0.update_line == s.update_line,
        k != Key::Char('t') ==> after_key(s, k).0.config == s.config,
        k == Key::Char('t') ==> after_key(s, k).0.config == (Config {
            show_empty_channels: !s.config.show_empty_channels,
            ..s.config
        }),
        after_key(s, k).0.list.channels.len() == s.list.channels.len(),
{
}

/// With channels without unseen videos hidden, a step of the channel cursor
/// either leaves it where it was or puts it on a listed channel; switching to
/// hiding them leaves the cursor on a listed channel, or on none.
pub proof fn lemma_cursor_on_listed(s: AppView, k: Key)
    requires
        s.screen == Screen::Channels,
        s.list.channels.len() <= usize::MAX,
    ensures
        !s.config.show_empty_channels && (k == Key::Char('j') || k == Key::Down || k == Key::Char('k')
            || k == Key::Up) ==> {
            ||| after_key(s, k).0.list.selected == s.list.selected
            ||| after_key(s, k).0.list.selected matches Some(j) && j < s.list.channels.len() && shown(
                s.list.channels[j as int],
                false,
            )
        },
        s.config.show_empty_channels && k == Key::Char('t') ==> (after_key(s, k).0.list.selected matches Some(j)
            ==> j < s.list.channels.len() && shown(s.list.channels[j as int], false)),
{
    let cs = s.list.channels;
    lemma_shown_searches(cs, 0, false);
    match s.list.selected {
        Some(i) => {
            lemma_shown_searches(cs, i + 1, false);
            lemma_shown_searches(cs, i as int, false);
        },
        None => {},
    }
}


/// In the video pane, `q`, `h`, Esc and Left all go back to the channel list,
/// and all in the same way: the right pane closes and the viewer is drawn
/// anew.
pub proof fn lemma_back_keys(s: AppView)
    requires
        s.screen == Screen::Videos,
    ensures
        after_key(s, Key::Char('h')) == (closed(s), Effect::Redraw),
        after_key(s, Key::Esc) == (closed(s), Effect::Redraw),
        after_key(s, Key::Left) == (closed(s), Effect::Redraw),
        after_key(s, Key::Char('q')) == (closed(s), Effect::Redraw),
        after_key(s, Key::Char('h')).0.screen == Screen::Channels,
        after_key(s, Key::Char('h')).0.list.selected == Some(s.current_selected),
{
}

/// On the channel list, with all channels listed, `k` and Up move the cursor
/// one row up and `j` and Down one row down, where there is such a row.
pub proof fn lemma_channel_keys_move_one_row(s: AppView, i: usize)
    requires
        s.screen == Screen::Channels,
        s.config.show_empty_channels,
        s.list.selected == Some(i),
    ensures
        0 < i < s.list.channels.len() ==> after_key(s, Key::Char('k')).0.list.selected == Some((i - 1) as usize),
        0 < i < s.list.channels.len() ==> after_key(s, Key::Up).0.list.selected == Some((i - 1) as usize),
        i + 1 < s.list.channels.len() ==> after_key(s, Key::Char('j')).0.list.selected == Some((i + 1) as usize),
        i + 1 < s.list.channels.len() ==> after_key(s, Key::Down).0.list.selected == Some((i + 1) as usize),
{
}
} // verus!
