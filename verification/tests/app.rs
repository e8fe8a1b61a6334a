use rupub::app::{Action, App, Key, LayoutState};

fn three_books() -> App {
    App::new(vec!["dune".to_string(), "emma".to_string(), "ulysses".to_string()])
}

fn cover(action: Action) -> String {
    match action {
        Action::LoadCover(book) => book,
        other => panic!("expected a cover request, got {:?}", other),
    }
}

#[test]
fn new_selects_first_book_on_list() {
    let app = three_books();
    assert_eq!(app.selected, Some(0));
    assert_eq!(app.layout_state, LayoutState::List);
    assert_eq!(app.scroll_offset, 0);
    assert_eq!(app.chapter_text, "");
}

#[test]
fn next_wraps_from_last_to_first() {
    let mut app = three_books();
    app.next();
    assert_eq!(app.selected, Some(1));
    app.next();
    assert_eq!(app.selected, Some(2));
    app.next();
    assert_eq!(app.selected, Some(0));
}

#[test]
fn previous_wraps_from_first_to_last() {
    let mut app = three_books();
    app.previous();
    assert_eq!(app.selected, Some(2));
    app.previous();
    assert_eq!(app.selected, Some(1));
}

#[test]
fn next_and_previous_without_selection_pick_first() {
    let mut app = three_books();
    app.selected = None;
    app.next();
    assert_eq!(app.selected, Some(0));
    app.selected = None;
    app.previous();
    assert_eq!(app.selected, Some(0));
}

#[test]
fn selected_book_follows_selection() {
    let mut app = three_books();
    assert_eq!(app.selected_book(), Some(&"dune".to_string()));
    app.selected = None;
    assert_eq!(app.selected_book(), None);
}

#[test]
fn down_and_up_keys_move_and_request_cover() {
    let mut app = three_books();
    assert_eq!(cover(app.handle_key(Key::Char('j'))), "emma");
    assert_eq!(cover(app.handle_key(Key::Down)), "ulysses");
    assert_eq!(cover(app.handle_key(Key::Down)), "dune");
    assert_eq!(cover(app.handle_key(Key::Up)), "ulysses");
    assert_eq!(cover(app.handle_key(Key::Char('k'))), "emma");
    assert_eq!(app.selected, Some(1));
}

#[test]
fn down_three_times_cycles_back() {
    let mut app = three_books();
    app.next();
    for _ in 0..3 {
        app.handle_key(Key::Down);
    }
    assert_eq!(app.selected, Some(1));
}

#[test]
fn enter_opens_selected_book() {
    let mut app = three_books();
    app.handle_key(Key::Down);
    match app.handle_key(Key::Enter) {
        Action::OpenBook(path) => assert_eq!(
            path,
            "/home/cody/workspaces/github/CodyBense/rupub/books/emma.epub"
        ),
        other => panic!("expected OpenBook, got {:?}", other),
    }
    assert_eq!(app.layout_state, LayoutState::Reader);
}

#[test]
fn enter_without_selection_does_nothing() {
    let mut app = three_books();
    app.selected = None;
    assert!(matches!(app.handle_key(Key::Enter), Action::Nothing));
    assert_eq!(app.layout_state, LayoutState::List);
}

#[test]
fn reader_keys_scroll_and_turn_chapters() {
    let mut app = three_books();
    app.handle_key(Key::Enter);
    assert!(matches!(app.handle_key(Key::Down), Action::Nothing));
    assert!(matches!(app.handle_key(Key::Char('j')), Action::Nothing));
    assert_eq!(app.scroll_offset, 2);
    app.handle_key(Key::Up);
    assert_eq!(app.scroll_offset, 1);
    app.handle_key(Key::Char('k'));
    app.handle_key(Key::Char('k'));
    assert_eq!(app.scroll_offset, 0);
    assert_eq!(app.selected, Some(0));
    assert!(matches!(app.handle_key(Key::Left), Action::PreviousChapter));
    assert!(matches!(app.handle_key(Key::Char('h')), Action::PreviousChapter));
    assert!(matches!(app.handle_key(Key::Right), Action::NextChapter));
    assert!(matches!(app.handle_key(Key::Char('l')), Action::NextChapter));
}

#[test]
fn scroll_saturates_at_maximum() {
    let mut app = three_books();
    app.handle_key(Key::Enter);
    app.scroll_offset = u16::MAX;
    app.handle_key(Key::Down);
    assert_eq!(app.scroll_offset, u16::MAX);
}

#[test]
fn chapter_keys_do_nothing_on_list() {
    let mut app = three_books();
    assert!(matches!(app.handle_key(Key::Left), Action::Nothing));
    assert!(matches!(app.handle_key(Key::Char('l')), Action::Nothing));
    assert!(matches!(app.handle_key(Key::Char('x')), Action::Nothing));
    assert!(matches!(app.handle_key(Key::Other), Action::Nothing));
    assert_eq!(app.selected, Some(0));
}

#[test]
fn q_leaves_reader_then_quits() {
    let mut app = three_books();
    app.handle_key(Key::Enter);
    assert!(matches!(app.handle_key(Key::Char('q')), Action::Nothing));
    assert_eq!(app.layout_state, LayoutState::List);
    assert!(matches!(app.handle_key(Key::Char('q')), Action::Quit));
    assert_eq!(app.layout_state, LayoutState::List);
}

#[test]
fn refresh_chapter_parses_and_resets_scroll() {
    let mut app = three_books();
    app.scroll_offset = 7;
    app.refresh_chapter(Some("<p>Call me Ishmael.</p>".to_string()));
    assert_eq!(app.chapter_text, "Call me Ishmael.\n");
    assert_eq!(app.scroll_offset, 0);
    app.scroll_offset = 3;
    app.refresh_chapter(None);
    assert_eq!(app.chapter_text, "Call me Ishmael.\n");
    assert_eq!(app.scroll_offset, 0);
}

#[test]
fn preview_text_names_selected_book() {
    let mut app = three_books();
    assert_eq!(app.preview_text(), "Selected: dune\n\nBook content would go here...");
    app.selected = None;
    assert_eq!(app.preview_text(), "No book selected");
}
