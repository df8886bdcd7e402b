use russ::app::{select_next, select_previous, App, Index, Key, Screen};
use russ::feed::{Metadata, Post, RssItem, RussFeed};
use russ::store::Store;

const RSS: &str = r#"<rss version="2.0"><channel><title>F</title><link>http://f/</link><description>d</description>
<item><title>A</title></item><item><title>B</title></item></channel></rss>"#;

fn app_with_feed() -> (App, Store<RussFeed>) {
    let mut app = App::new();
    let mut store = Store::new();
    assert_eq!(app.add_channel(RSS.as_bytes(), &mut store), Ok(true));
    let index = Index { meta: vec![app.index.meta[0].duplicate()], selected: Some(0) };
    app.load_all(index, &store);
    (app, store)
}

#[test]
fn new_session_starts_on_main_menu() {
    let app = App::new();
    assert_eq!(app.current_screen, Screen::MainMenu);
    assert_eq!(app.index.selected, Some(0));
    assert!(app.index.meta.is_empty());
    assert!(app.feeds.is_empty());
}

#[test]
fn add_channel_records_and_stores_once() {
    let mut app = App::new();
    let mut store = Store::new();
    assert_eq!(app.add_channel(RSS.as_bytes(), &mut store), Ok(true));
    assert_eq!(app.index.meta.len(), 1);
    assert_eq!(app.feeds.len(), 1);
    assert_eq!(app.feeds[0].meta.id, app.index.meta[0].id);
    assert_eq!(app.add_channel(RSS.as_bytes(), &mut store), Ok(false));
    assert_eq!(app.index.meta.len(), 1);
    assert_eq!(app.feeds.len(), 1);
    let id = app.index.meta[0].id.clone();
    assert_eq!(store.load(&id).unwrap().posts.len(), 2);
}

#[test]
fn failed_add_changes_nothing() {
    let mut app = App::new();
    let mut store: Store<RussFeed> = Store::new();
    assert!(app.add_channel(b"not xml <", &mut store).is_err());
    assert!(app.index.meta.is_empty());
}

#[test]
fn load_all_skips_missing_records() {
    let (_, store) = app_with_feed();
    let mut app = App::new();
    let missing = Metadata { id: "1".to_string(), title: "gone".to_string(), url: "u".to_string() };
    let id = russ::store::identity_of("http://f/");
    let present = Metadata { id, title: "F".to_string(), url: "http://f/".to_string() };
    app.load_all(Index { meta: vec![missing, present], selected: Some(0) }, &store);
    assert_eq!(app.index.meta.len(), 1);
    assert_eq!(app.index.meta[0].title, "F");
    assert_eq!(app.feeds.len(), 1);
    assert_eq!(app.feeds[0].meta.id, app.index.meta[0].id);
    assert_eq!(app.feeds[0].posts[1].title, "B");
    assert_eq!(app.index.selected, Some(0));
    // the main menu's cursor names the feed it highlights
    app.handle_key(Key::Enter);
    app.handle_key(Key::Char('j'));
    app.handle_key(Key::Enter);
    assert_eq!(app.current_screen, Screen::Reader);
    assert_eq!(app.feeds[0].selected, Some(0));
}

#[test]
fn load_all_fits_selection_to_kept_entries() {
    let (_, store) = app_with_feed();
    let mut app = App::new();
    let missing = Metadata { id: "1".to_string(), title: "gone".to_string(), url: "u".to_string() };
    let id = russ::store::identity_of("http://f/");
    let present = Metadata { id, title: "F".to_string(), url: "http://f/".to_string() };
    app.load_all(Index { meta: vec![present, missing], selected: Some(1) }, &store);
    assert_eq!(app.index.meta.len(), 1);
    assert_eq!(app.index.selected, Some(0));
    let mut empty = App::new();
    empty.load_all(Index { meta: vec![], selected: Some(0) }, &store);
    assert_eq!(empty.index.selected, None);
    assert!(empty.feeds.is_empty());
}

#[test]
fn menus_and_reader_transitions() {
    let (mut app, _) = app_with_feed();
    assert!(!app.handle_key(Key::Enter));
    assert_eq!(app.current_screen, Screen::FeedMenu);
    // no post selected yet: Enter stays
    assert!(!app.handle_key(Key::Enter));
    assert_eq!(app.current_screen, Screen::FeedMenu);
    app.handle_key(Key::Char('j'));
    assert_eq!(app.feeds[0].selected, Some(0));
    app.handle_key(Key::Char('j'));
    app.handle_key(Key::Char('j'));
    assert_eq!(app.feeds[0].selected, Some(1));
    app.handle_key(Key::Enter);
    assert_eq!(app.current_screen, Screen::Reader);
    app.handle_key(Key::Char('j'));
    app.handle_key(Key::Char('j'));
    assert_eq!(app.feeds[0].posts[1].scroll, (2, 0));
    app.handle_key(Key::Char('k'));
    app.handle_key(Key::Char('k'));
    app.handle_key(Key::Char('k'));
    assert_eq!(app.feeds[0].posts[1].scroll, (0, 0));
    app.handle_key(Key::Char('q'));
    assert_eq!(app.current_screen, Screen::FeedMenu);
    app.handle_key(Key::Char('q'));
    assert_eq!(app.current_screen, Screen::MainMenu);
}

#[test]
fn exiting_confirm_and_cancel() {
    let mut app = App::new();
    assert!(!app.handle_key(Key::Char('q')));
    assert_eq!(app.current_screen, Screen::Exiting);
    assert!(!app.handle_key(Key::Char('n')));
    assert_eq!(app.current_screen, Screen::MainMenu);
    app.handle_key(Key::Char('q'));
    assert!(!app.handle_key(Key::Other));
    assert_eq!(app.current_screen, Screen::Exiting);
    assert!(app.handle_key(Key::Char('y')));
}

#[test]
fn main_menu_selection_stays_on_list() {
    let (mut app, _) = app_with_feed();
    app.handle_key(Key::Char('j'));
    assert_eq!(app.index.selected, Some(0));
    app.handle_key(Key::Char('k'));
    assert_eq!(app.index.selected, Some(0));
}

#[test]
fn selection_moves() {
    assert_eq!(select_next(None, 3), Some(0));
    assert_eq!(select_next(Some(1), 3), Some(2));
    assert_eq!(select_next(Some(2), 3), Some(2));
    assert_eq!(select_next(Some(0), 0), None);
    assert_eq!(select_previous(None, 3), Some(2));
    assert_eq!(select_previous(Some(0), 3), Some(0));
    assert_eq!(select_previous(Some(2), 3), Some(1));
    assert_eq!(select_previous(Some(9), 3), Some(2));
}

#[test]
fn reader_scroll_without_selection_does_nothing() {
    let mut app = App::new();
    app.current_screen = Screen::Reader;
    app.handle_key(Key::Char('j'));
    assert_eq!(app.current_screen, Screen::Reader);
    let _ = Post::from_item(&RssItem { title: None, content: None });
}

#[test]
fn index_add_appends() {
    let mut index = Index::new();
    index.add(Metadata { id: "1".to_string(), title: "a".to_string(), url: "u1".to_string() });
    index.add(Metadata { id: "2".to_string(), title: "b".to_string(), url: "u2".to_string() });
    assert_eq!(index.meta.len(), 2);
    assert_eq!(index.meta[1].title, "b");
    assert_eq!(index.selected, Some(0));
}
