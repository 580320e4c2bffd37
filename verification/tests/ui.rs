use tyt::internal::{Channel, ChannelList, ListState, Video};
use tyt::ui::{Action, App, Config, Key, Screen};

fn video(link: &str) -> Video {
    let mut v = Video::new();
    v.link = String::from(link);
    v
}

fn app(videos_per_channel: &[usize]) -> App {
    let mut list = ChannelList::new();
    for (i, n) in videos_per_channel.iter().enumerate() {
        let mut c = Channel::new_with_id(&format!("c{}", i));
        for j in 0..*n {
            c.videos.push(video(&format!("c{}v{}", i, j)));
        }
        list.channels.push(c);
    }
    list.list_state.select(Some(0));
    App::new(String::from("TYT"), list, Config::default())
}

#[test]
fn quit_only_from_the_channel_list() {
    let mut a = app(&[2]);
    assert!(matches!(a.handle_key(Key::Char('q')), Action::Quit));
    a.handle_key(Key::Char('l'));
    assert_eq!(a.current_screen, Screen::Videos);
    assert!(matches!(a.handle_key(Key::Char('q')), Action::Redraw));
    assert_eq!(a.current_screen, Screen::Channels);
}

#[test]
fn open_then_close_restores_the_cursor() {
    let mut a = app(&[1, 3, 2]);
    a.handle_key(Key::Down);
    assert_eq!(a.channel_list.list_state.selected, Some(1));
    assert!(matches!(a.handle_key(Key::Right), Action::Redraw));
    assert_eq!(a.current_screen, Screen::Videos);
    assert_eq!(a.current_selected, 1);
    assert_eq!(a.channel_list.list_state.selected, None);
    assert_eq!(a.channel_list.channels[1].list_state.selected, Some(0));
    assert!(matches!(a.handle_key(Key::Esc), Action::Redraw));
    assert_eq!(a.current_screen, Screen::Channels);
    assert_eq!(a.channel_list.list_state.selected, Some(1));
}

#[test]
fn opening_without_a_cursor_does_nothing() {
    let mut a = app(&[1]);
    a.channel_list.list_state = ListState::new();
    assert!(matches!(a.handle_key(Key::Char('o')), Action::Nothing));
    assert_eq!(a.current_screen, Screen::Channels);
}

#[test]
fn cursors_stay_in_the_lists() {
    let mut a = app(&[1, 1]);
    a.handle_key(Key::Char('k'));
    assert_eq!(a.channel_list.list_state.selected, Some(0));
    a.handle_key(Key::Char('j'));
    a.handle_key(Key::Char('j'));
    assert_eq!(a.channel_list.list_state.selected, Some(1));
    a.handle_key(Key::Char('\n'));
    a.handle_key(Key::Down);
    assert_eq!(a.channel_list.channels[1].list_state.selected, Some(0));
    a.handle_key(Key::Up);
    assert_eq!(a.channel_list.channels[1].list_state.selected, Some(0));
}

#[test]
fn marking_moves_down_and_asks_to_save() {
    let mut a = app(&[3]);
    a.config.mark_on_open = false;
    a.handle_key(Key::Char('l'));
    assert!(matches!(a.handle_key(Key::Char('m')), Action::RedrawAndSave));
    assert!(a.channel_list.channels[0].videos[0].marked);
    assert_eq!(a.channel_list.channels[0].list_state.selected, Some(1));
    a.handle_key(Key::Char('k'));
    assert!(matches!(a.handle_key(Key::Char('M')), Action::RedrawAndSave));
    assert!(!a.channel_list.channels[0].videos[0].marked);
    assert!(matches!(a.handle_key(Key::Char('m')), Action::RedrawAndSave));
    assert!(a.channel_list.channels[0].videos[1].marked);
    assert!(matches!(a.handle_key(Key::Char('m')), Action::RedrawAndSave));
    assert!(matches!(a.handle_key(Key::Char('m')), Action::RedrawAndSave));
    assert!(a.channel_list.channels[0].videos[2].marked);
    assert_eq!(a.channel_list.channels[0].list_state.selected, Some(2));
}

#[test]
fn open_gives_the_link_and_refresh_closes() {
    let mut a = app(&[2]);
    a.config.mark_on_open = false;
    a.handle_key(Key::Char('o'));
    a.handle_key(Key::Char('j'));
    match a.handle_key(Key::Char('o')) {
        Action::Open(link) => assert_eq!(link, "c0v1"),
        _ => panic!("expected a link"),
    }
    assert!(matches!(a.handle_key(Key::Char('r')), Action::Refresh));
    assert_eq!(a.current_screen, Screen::Channels);
    assert_eq!(a.channel_list.list_state.selected, Some(0));
    assert!(matches!(a.handle_key(Key::Other), Action::Nothing));
    assert!(matches!(a.handle_key(Key::Char('m')), Action::Nothing));
    assert_eq!(a.app_title, "TYT");
}

#[test]
fn video_mark_and_cursor_steps() {
    let mut v = video("x");
    v.mark(true);
    assert!(v.marked);
    v.mark(false);
    assert!(!v.marked);
    let mut l = ChannelList::new();
    l.next();
    assert_eq!(l.list_state.selected(), None);
    l.channels.push(Channel::new());
    l.prev();
    assert_eq!(l.list_state.selected(), Some(0));
    l.list_state.select(Some(5));
    l.prev();
    assert_eq!(l.list_state.selected(), Some(0));
}

#[test]
fn default_settings() {
    let c = Config::default();
    assert!(c.show_empty_channels);
    assert!(c.mark_on_open);
    assert!(c.down_on_mark);
    assert!(!c.sort_by_tag);
}

#[test]
fn opening_a_video_marks_it_and_enter_opens_too() {
    let mut a = app(&[2]);
    a.handle_key(Key::Char('l'));
    match a.handle_key(Key::Char('l')) {
        Action::Open(link) => assert_eq!(link, "c0v0"),
        _ => panic!("expected a link"),
    }
    assert!(a.channel_list.channels[0].videos[0].marked);
    assert_eq!(a.channel_list.channels[0].list_state.selected, Some(0));
    a.handle_key(Key::Down);
    a.config.mark_on_open = false;
    match a.handle_key(Key::Char('\n')) {
        Action::Open(link) => assert_eq!(link, "c0v1"),
        _ => panic!("expected a link"),
    }
    assert!(!a.channel_list.channels[0].videos[1].marked);
    assert!(matches!(a.handle_key(Key::Right), Action::Nothing));
}

#[test]
fn copy_gives_the_link() {
    let mut a = app(&[1, 0]);
    assert!(matches!(a.handle_key(Key::Char('c')), Action::Nothing));
    a.handle_key(Key::Char('o'));
    match a.handle_key(Key::Char('c')) {
        Action::Copy(link) => assert_eq!(link, "c0v0"),
        _ => panic!("expected a link"),
    }
    assert!(!a.channel_list.channels[0].videos[0].marked);
    // an empty channel has no video to copy or open
    a.handle_key(Key::Esc);
    a.handle_key(Key::Down);
    a.handle_key(Key::Char('l'));
    assert!(matches!(a.handle_key(Key::Char('c')), Action::Nothing));
    assert!(matches!(a.handle_key(Key::Char('l')), Action::Nothing));
}

#[test]
fn marking_without_moving_down() {
    let mut a = app(&[2]);
    a.config.down_on_mark = false;
    a.handle_key(Key::Char('l'));
    a.handle_key(Key::Char('m'));
    assert!(a.channel_list.channels[0].videos[0].marked);
    assert_eq!(a.channel_list.channels[0].list_state.selected, Some(0));
}

#[test]
fn hiding_channels_without_unseen_videos() {
    // channel 1 has no videos, channel 2 only seen ones
    let mut a = app(&[1, 0, 1, 2]);
    a.channel_list.channels[2].videos[0].mark(true);
    assert_eq!(a.channel_list.channels[2].unseen_count(), 0);
    assert_eq!(a.channel_list.channels[3].unseen_count(), 2);
    a.handle_key(Key::Down);
    assert_eq!(a.channel_list.list_state.selected, Some(1));
    assert!(matches!(a.handle_key(Key::Char('t')), Action::Redraw));
    assert!(!a.config.show_empty_channels);
    // the cursor left the hidden channel for the first listed one
    assert_eq!(a.channel_list.list_state.selected, Some(0));
    assert_eq!(a.channel_list.shown_rows(false), vec![0, 3]);
    a.handle_key(Key::Down);
    assert_eq!(a.channel_list.list_state.selected, Some(3));
    a.handle_key(Key::Down);
    assert_eq!(a.channel_list.list_state.selected, Some(3));
    a.handle_key(Key::Up);
    assert_eq!(a.channel_list.list_state.selected, Some(0));
    a.handle_key(Key::Char('t'));
    assert!(a.config.show_empty_channels);
    assert_eq!(a.channel_list.shown_rows(true), vec![0, 1, 2, 3]);
    a.handle_key(Key::Down);
    assert_eq!(a.channel_list.list_state.selected, Some(1));
}

#[test]
fn open_and_close_by_method() {
    let mut a = app(&[1, 2]);
    a.channel_list.list_state.select(Some(1));
    assert!(a.open_selected_channel());
    assert_eq!(a.current_screen, Screen::Videos);
    assert_eq!(a.get_selected_channel().id, "c1");
    assert_eq!(a.get_selected_video().link, "c1v0");
    a.close_right_block();
    assert_eq!(a.current_screen, Screen::Channels);
    assert_eq!(a.channel_list.list_state.selected, Some(1));
    assert_eq!(a.current_selected, 1);
}
