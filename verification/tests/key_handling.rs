use lostower::app::settings::Bookmark;
use lostower::app::state::{AppState, View};
use lostower::tui::keys::{
    handle_key_event, key_is_allowed, open_book, open_bookmark, parse_book, parse_is_allowed,
    reload_txt_book, try_handle_key_event, Key, KeyAction,
};
use lostower::book::formats::txt::Charset;
use lostower::tui::ui::bookmarks::BookmarksView;
use lostower::tui::ui::library::Library;
use lostower::tui::ui::reader::Reader;
use lostower::tui::ui::selection::ListState;

struct Ui {
    state: AppState,
    library: Library,
    reader: Reader,
    bookmarks: BookmarksView,
}

impl Ui {
    fn new(files: &[&str]) -> Ui {
        let mut library = Library::new("/books".to_string());
        library.load_books(files.iter().map(|f| f.to_string()).collect());
        Ui { state: AppState::new(), library, reader: Reader::new(), bookmarks: BookmarksView::new() }
    }

    fn press(&mut self, key: Key) -> KeyAction {
        assert!(key_is_allowed(&self.state, key, &self.reader, &self.bookmarks));
        handle_key_event(&mut self.state, key, &mut self.library, &mut self.reader, &mut self.bookmarks)
    }
}

fn bookmark(path: &str, chapter: usize, offset: usize) -> Bookmark {
    Bookmark { book_path: path.to_string(), chapter, scroll_offset: offset, title: "t".to_string() }
}

#[test]
fn library_selection_wraps() {
    let mut ui = Ui::new(&["/books/a.txt", "/books/b.txt", "/books/c.epub"]);
    assert_eq!(ui.library.list_state.selected(), Some(0));
    ui.press(Key::Up);
    assert_eq!(ui.library.list_state.selected(), Some(2));
    ui.press(Key::Char('j'));
    assert_eq!(ui.library.list_state.selected(), Some(0));
    ui.press(Key::Down);
    assert_eq!(ui.library.get_selected_book(), Some(&"/books/b.txt".to_string()));
    match ui.press(Key::Enter) {
        KeyAction::OpenBook { index } => assert_eq!(index, 1),
        other => panic!("unexpected {:?}", other),
    }
}

#[test]
fn empty_library_has_nothing_to_open() {
    let mut ui = Ui::new(&[]);
    ui.press(Key::Down);
    assert_eq!(ui.library.list_state.selected(), None);
    assert!(matches!(ui.press(Key::Enter), KeyAction::Nothing));
}

#[test]
fn opening_a_text_book_loads_it_in_the_reader() {
    let mut ui = Ui::new(&["/books/story.txt"]);
    ui.reader.scroll_offset = 9;
    assert!(open_book(&mut ui.state, &mut ui.reader, "txt", "story".to_string(), b"one\ntwo"));
    assert_eq!(ui.state.current_view, View::Reader);
    let book = ui.state.current_book.as_ref().unwrap();
    assert_eq!(book.metadata.title, "story");
    assert_eq!(book.content.full_text, "one\ntwo");
    assert_eq!(ui.reader.scroll_offset, 0);
}

#[test]
fn opening_an_unknown_format_does_nothing() {
    let mut ui = Ui::new(&[]);
    assert!(!open_book(&mut ui.state, &mut ui.reader, "pdf", "x".to_string(), b"data"));
    assert!(ui.state.current_book.is_none());
    assert!(parse_book(Charset::Utf8, "epub", "x".to_string(), b"not a zip").is_none());
}

#[test]
fn reloading_reads_text_in_the_new_charset() {
    let mut ui = Ui::new(&["/books/zh.txt"]);
    ui.state.load_book(parse_book(Charset::Utf8, "txt", "zh".to_string(), b"x").unwrap());
    ui.press(Key::Char('c'));
    assert_eq!(ui.state.current_charset, Charset::Gb2312);
    assert!(reload_txt_book(&mut ui.state, &mut ui.reader, "txt", "zh".to_string(), &[0xD6, 0xD0]));
    assert_eq!(ui.state.current_book.as_ref().unwrap().content.full_text, "中");
    assert!(!reload_txt_book(&mut ui.state, &mut ui.reader, "epub", "zh".to_string(), b"zip"));
}

#[test]
fn reader_keys() {
    let mut ui = Ui::new(&["/books/story.txt"]);
    open_book(&mut ui.state, &mut ui.reader, "txt", "story".to_string(), b"a\nb\nc");
    ui.press(Key::Char('h'));
    assert_eq!(ui.state.current_view, View::Help);
    ui.press(Key::Char('r'));
    assert_eq!(ui.state.current_view, View::Reader);
    // Adding a bookmark asks for the settings to be saved, once.
    assert!(matches!(ui.press(Key::Char('b')), KeyAction::SaveSettings));
    assert!(matches!(ui.press(Key::Char('b')), KeyAction::Nothing));
    assert_eq!(ui.state.settings.bookmarks.len(), 1);
    assert_eq!(ui.state.settings.bookmarks[0].title, "story");
    assert_eq!(ui.state.settings.bookmarks[0].book_path, "/books/story.txt");
    ui.press(Key::Char('m'));
    assert_eq!(ui.state.current_view, View::Bookmarks);
    assert_eq!(ui.bookmarks.list_state.selected(), Some(0));
    match ui.press(Key::Enter) {
        KeyAction::OpenBookmark { bookmark } => assert_eq!(bookmark.book_path, "/books/story.txt"),
        other => panic!("unexpected {:?}", other),
    }
    ui.press(Key::Esc);
    assert_eq!(ui.state.current_view, View::Reader);
    ui.press(Key::Char('q'));
    assert!(ui.state.should_quit);
}

#[test]
fn typing_a_search() {
    let mut ui = Ui::new(&["/books/story.txt"]);
    open_book(&mut ui.state, &mut ui.reader, "txt", "story".to_string(), b"Cat\ndog\ncatalog");
    ui.press(Key::Char('/'));
    assert!(ui.reader.search.active);
    ui.press(Key::Char('c'));
    ui.press(Key::Char('a'));
    ui.press(Key::Char('t'));
    assert_eq!(ui.reader.search.query, "cat");
    assert_eq!(ui.reader.search.matches, vec![(0, 0), (2, 0)]);
    ui.press(Key::Char('n'));
    assert_eq!(ui.reader.search.current_match_index, 1);
    ui.press(Key::Backspace);
    assert_eq!(ui.reader.search.query, "ca");
    ui.press(Key::Esc);
    assert!(!ui.reader.search.active);
}

#[test]
fn deleting_bookmarks() {
    let mut ui = Ui::new(&[]);
    ui.state.settings.bookmarks = vec![bookmark("/a", 0, 0), bookmark("/b", 0, 0)];
    ui.state.switch_view(View::Bookmarks);
    ui.bookmarks.list_state = ListState { selection: Some(1) };
    assert!(matches!(ui.press(Key::Char('d')), KeyAction::SaveSettings));
    assert_eq!(ui.state.settings.bookmarks.len(), 1);
    assert_eq!(ui.bookmarks.list_state.selected(), Some(0));
    assert_eq!(ui.state.current_view, View::Bookmarks);
    assert!(matches!(ui.press(Key::Delete), KeyAction::SaveSettings));
    assert!(ui.state.settings.bookmarks.is_empty());
    assert_eq!(ui.bookmarks.list_state.selected(), None);
    assert_eq!(ui.state.current_view, View::Library);
}

#[test]
fn deleting_past_the_list_is_refused() {
    let mut ui = Ui::new(&[]);
    ui.state.switch_view(View::Bookmarks);
    ui.bookmarks.list_state = ListState { selection: Some(3) };
    assert!(!key_is_allowed(&ui.state, Key::Char('d'), &ui.reader, &ui.bookmarks));
}

#[test]
fn opening_a_bookmark_restores_the_place() {
    let mut ui = Ui::new(&[]);
    let mark = bookmark("/books/s.txt", 2, 40);
    assert!(open_bookmark(&mut ui.state, &mut ui.reader, "TXT", "s".to_string(), b"text", &mark));
    assert_eq!((ui.reader.current_chapter, ui.reader.scroll_offset), (2, 40));
    assert_eq!(ui.state.current_view, View::Reader);
}

#[test]
fn refused_keys_change_nothing() {
    let mut ui = Ui::new(&[]);
    ui.state.settings.bookmarks = vec![bookmark("/a", 0, 0)];
    ui.state.switch_view(View::Bookmarks);
    ui.bookmarks.list_state = ListState { selection: Some(5) };
    let action = try_handle_key_event(
        &mut ui.state,
        Key::Delete,
        &mut ui.library,
        &mut ui.reader,
        &mut ui.bookmarks,
    );
    assert!(action.is_none());
    assert_eq!(ui.state.settings.bookmarks.len(), 1);
    assert_eq!(ui.state.current_view, View::Bookmarks);
    ui.bookmarks.list_state = ListState { selection: Some(0) };
    let action = try_handle_key_event(
        &mut ui.state,
        Key::Delete,
        &mut ui.library,
        &mut ui.reader,
        &mut ui.bookmarks,
    );
    assert!(matches!(action, Some(KeyAction::SaveSettings)));
    assert!(ui.state.settings.bookmarks.is_empty());
    assert_eq!(ui.state.current_view, View::Library);
}

#[test]
fn which_files_can_be_parsed() {
    assert!(parse_is_allowed("txt", b"abc"));
    assert!(parse_is_allowed("EPUB", b"abc"));
    assert!(parse_is_allowed("pdf", b"abc"));
    assert!(!parse_is_allowed("mobi", b"abc"));
}

#[test]
fn bookmark_list_text() {
    let mut ui = Ui::new(&[]);
    assert_eq!(BookmarksView::title(&ui.state), "Bookmarks - 0 saved");
    ui.state.settings.bookmarks = vec![bookmark("/a", 0, 0), bookmark("/b", 11, 340)];
    assert_eq!(BookmarksView::title(&ui.state), "Bookmarks - 2 saved");
    assert_eq!(BookmarksView::item_label(&ui.state.settings.bookmarks[1]), "t - Ch:12 Off:340");
    assert_eq!(BookmarksView::item_label(&ui.state.settings.bookmarks[0]), "t - Ch:1 Off:0");
}
