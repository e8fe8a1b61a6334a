//! The reader's state and what each key press does to it.
//!
//! The terminal loop lives outside the library: it reads a key, hands it to
//! [`App::handle_key`], and performs the [`Action`] that comes back (quitting,
//! loading a cover, opening a book, turning a chapter).
use vstd::prelude::*;

use crate::book::{chapter_text, parse_chapter_content, string_views};
use crate::files::{epub_dir, epub_extension, epub_path};

verus! {

/// Which screen is shown: the list of books, or a chapter being read.
#[derive(Clone, Copy, Debug, PartialEq, Eq, Structural)]
pub enum LayoutState {
    List,
    Reader,
}

/// A key press, as far as the reader tells keys apart.
#[derive(Clone, Copy, Debug, PartialEq, Eq, Structural)]
pub enum Key {
    Char(char),
    Up,
    Down,
    Left,
    Right,
    Enter,
    Other,
}

/// What a key press asks of the reader.
#[derive(Clone, Copy, Debug, PartialEq, Eq, Structural)]
pub enum Command {
    Quit,
    Down,
    Up,
    Open,
    Back,
    Forward,
    Ignore,
}

/// The key bindings: `q` quits, `j`/Down and `k`/Up move, Enter opens,
/// `h`/Left and `l`/Right turn chapters.
pub open spec fn command(key: Key) -> Command {
    match key {
        Key::Char(c) => {
            if c == 'q' {
                Command::Quit
            } else if c == 'j' {
                Command::Down
            } else if c == 'k' {
                Command::Up
            } else if c == 'h' {
                Command::Back
            } else if c == 'l' {
                Command::Forward
            } else {
                Command::Ignore
            }
        },
        Key::Down => Command::Down,
        Key::Up => Command::Up,
        Key::Enter => Command::Open,
        Key::Left => Command::Back,
        Key::Right => Command::Forward,
        Key::Other => Command::Ignore,
    }
}

/// Work that the key press leaves to the terminal loop.
#[derive(Debug)]
pub enum Action {
    /// Nothing beyond the new state.
    Nothing,
    /// Leave the program.
    Quit,
    /// Load the cover of the book with this title.
    LoadCover(String),
    /// Open the epub file at this path, then refresh the chapter.
    OpenBook(String),
    /// Go to the previous chapter of the open book, then refresh the chapter.
    PreviousChapter,
    /// Go to the next chapter of the open book, then refresh the chapter.
    NextChapter,
}

pub enum ActionView {
    Nothing,
    Quit,
    LoadCover(Seq<char>),
    OpenBook(Seq<char>),
    PreviousChapter,
    NextChapter,
}

impl View for Action {
    type V = ActionView;

    open spec fn view(&self) -> ActionView {
        match self {
            Action::Nothing => ActionView::Nothing,
            Action::Quit => ActionView::Quit,
            Action::LoadCover(book) => ActionView::LoadCover(book@),
            Action::OpenBook(path) => ActionView::OpenBook(path@),
            Action::PreviousChapter => ActionView::PreviousChapter,
            Action::NextChapter => ActionView::NextChapter,
        }
    }
}

/// The reader's state.
pub struct App {
    /// The titles of the books, in list order.
    pub books: Vec<String>,
    /// The highlighted entry of the book list.
    pub selected: Option<usize>,
    pub layout_state: LayoutState,
    /// The text of the chapter being read.
    pub chapter_text: String,
    /// How many lines of the chapter are scrolled past.
    pub scroll_offset: u16,
}

pub struct AppView {
    pub books: Seq<Seq<char>>,
    pub selected: Option<usize>,
    pub layout_state: LayoutState,
    pub chapter_text: Seq<char>,
    pub scroll_offset: u16,
}

impl View for App {
    type V = AppView;

    open spec fn view(&self) -> AppView {
        AppView {
            books: string_views(self.books@),
            selected: self.selected,
            layout_state: self.layout_state,
            chapter_text: self.chapter_text@,
            scroll_offset: self.scroll_offset,
        }
    }
}

/// The entry after `selected` in a list of `len` entries, wrapping from the
/// last to the first; the first when nothing is selected.
pub open spec fn next_index(selected: Option<usize>, len: nat) -> usize {
    match selected {
        Some(i) => if i >= len - 1 {
            0
        } else {
            (i + 1) as usize
        },
        None => 0,
    }
}

/// The entry before `selected` in a list of `len` entries, wrapping from the
/// first to the last; the first when nothing is selected.
pub open spec fn previous_index(selected: Option<usize>, len: nat) -> usize {
    match selected {
        Some(i) => if i == 0 {
            (len - 1) as usize
        } else {
            (i - 1) as usize
        },
        None => 0,
    }
}

impl AppView {
    /// There is a book (and no more than an index can count), and the
    /// selection, if any, is one of them.
    pub open spec fn wf(self) -> bool {
        &&& 0 < self.books.len() <= usize::MAX
        &&& self.selected matches Some(i) ==> i < self.books.len()
    }

    pub open spec fn with_selected(self, i: usize) -> AppView {
        AppView { selected: Some(i), ..self }
    }

    pub open spec fn with_layout(self, layout_state: LayoutState) -> AppView {
        AppView { layout_state, ..self }
    }

    pub open spec fn with_scroll(self, scroll_offset: u16) -> AppView {
        AppView { scroll_offset, ..self }
    }

    /// Moving the selection to `i` in the list, which asks for that book's
    /// cover.
    pub open spec fn select_and_load(self, i: usize) -> (AppView, ActionView) {
        (self.with_selected(i), ActionView::LoadCover(self.books[i as int]))
    }

    /// What one key press does: the new state and the work left to the loop.
    pub open spec fn step(self, key: Key) -> (AppView, ActionView) {
        match command(key) {
            Command::Quit => match self.layout_state {
                LayoutState::List => (self, ActionView::Quit),
                LayoutState::Reader => (self.with_layout(LayoutState::List), ActionView::Nothing),
            },
            Command::Down => match self.layout_state {
                LayoutState::List => self.select_and_load(
                    next_index(self.selected, self.books.len()),
                ),
                LayoutState::Reader => (
                    self.with_scroll(self.scroll_offset.saturating_add(1)),
                    ActionView::Nothing,
                ),
            },
            Command::Up => match self.layout_state {
                LayoutState::List => self.select_and_load(
                    previous_index(self.selected, self.books.len()),
                ),
                LayoutState::Reader => (
                    self.with_scroll(self.scroll_offset.saturating_sub(1)),
                    ActionView::Nothing,
                ),
            },
            Command::Open => match self.selected {
                Some(i) => (
                    self.with_layout(LayoutState::Reader),
                    ActionView::OpenBook(epub_dir() + self.books[i as int] + epub_extension()),
                ),
                None => (self, ActionView::Nothing),
            },
            Command::Back => match self.layout_state {
                LayoutState::Reader => (self, ActionView::PreviousChapter),
                LayoutState::List => (self, ActionView::Nothing),
            },
            Command::Forward => match self.layout_state {
                LayoutState::Reader => (self, ActionView::NextChapter),
                LayoutState::List => (self, ActionView::Nothing),
            },
            Command::Ignore => (self, ActionView::Nothing),
        }
    }
}

impl App {
    /// A reader on the book list with the first book selected. It is well
    /// formed when the list is not empty.
    pub fn new(books: Vec<String>) -> (app: App)
        ensures
            app@ == (AppView {
                books: string_views(books@),
                selected: Some(0),
                layout_state: LayoutState::List,
                chapter_text: Seq::empty(),
                scroll_offset: 0,
            }),
            books.len() > 0 ==> app@.wf(),
    {
        App {
            books,
            selected: Some(0),
            layout_state: LayoutState::List,
            chapter_text: String::new(),
            scroll_offset: 0,
        }
    }

    /// Selects the next book, wrapping from the last to the first.
    pub fn next(&mut self)
        requires
            old(self).selected is Some ==> old(self).books.len() > 0,
        ensures
            final(self)@ == old(self)@.with_selected(
                next_index(old(self).selected, old(self).books.len() as nat),
            ),
    {
        let i: usize = match self.selected {
            Some(i) => {
                if i >= self.books.len() - 1 {
                    0
                } else {
                    i + 1
                }
            },
            None => 0,
        };
        self.selected = Some(i);
    }

    /// Selects the previous book, wrapping from the first to the last.
    pub fn previous(&mut self)
        requires
            old(self).selected is Some ==> old(self).books.len() > 0,
        ensures
            final(self)@ == old(self)@.with_selected(
                previous_index(old(self).selected, old(self).books.len() as nat),
            ),
    {
        let i: usize = match self.selected {
            Some(i) => {
                if i == 0 {
                    self.books.len() - 1
                } else {
                    i - 1
                }
            },
            None => 0,
        };
        self.selected = Some(i);
    }

    /// The title of the selected book, if one is selected.
    pub fn selected_book(&self) -> (book: Option<&String>)
        requires
            self.selected matches Some(i) ==> i < self.books.len(),
        ensures
            match self.selected {
                Some(i) => book matches Some(b) && b@ == self@.books[i as int],
                None => book is None,
            },
    {
        match self.selected {
            Some(i) => Some(&self.books[i]),
            None => None,
        }
    }

    /// Shows the chapter whose HTML is given (keeping the old text when
    /// there is none) from its first line.
    pub fn refresh_chapter(&mut self, content: Option<String>)
        ensures
            final(self)@ == (AppView {
                chapter_text: match content {
                    Some(html) => chapter_text(html@),
                    None => old(self)@.chapter_text,
                },
                scroll_offset: 0,
                ..old(self)@
            }),
    {
        if let Some(html) = content {
            self.chapter_text = parse_chapter_content(html);
        }
        self.scroll_offset = 0;
    }

    /// The preview line for the selected book.
    pub fn preview_text(&self) -> (text: String)
        requires
            self.selected matches Some(i) ==> i < self.books.len(),
        ensures
            text@ == match self.selected {
                Some(i) => "Selected: "@ + self@.books[i as int]
                    + "\n\nBook content would go here..."@,
                None => "No book selected"@,
            },
    {
        match self.selected_book() {
            Some(book) => String::from_str("Selected: ").concat(book.as_str()).concat(
                "\n\nBook content would go here...",
            ),
            None => String::from_str("No book selected"),
        }
    }

    /// Applies one key press: moves the selection or scrolls, switches
    /// between the list and the reader, and says what is left to do.
    pub fn handle_key(&mut self, key: Key) -> (action: Action)
        requires
            old(self)@.wf(),
        ensures
            (final(self)@, action@) == old(self)@.step(key),
            final(self)@.wf(),
    {
        let requested = match key {
            Key::Char('q') => Command::Quit,
            Key::Down | Key::Char('j') => Command::Down,
            Key::Up | Key::Char('k') => Command::Up,
            Key::Enter => Command::Open,
            Key::Left | Key::Char('h') => Command::Back,
            Key::Right | Key::Char('l') => Command::Forward,
            _ => Command::Ignore,
        };
        assert(requested == command(key));
        match requested {
            Command::Quit => match self.layout_state {
                LayoutState::List => Action::Quit,
                LayoutState::Reader => {
                    self.layout_state = LayoutState::List;
                    Action::Nothing
                },
            },
            Command::Down => match self.layout_state {
                LayoutState::List => {
                    self.next();
                    let book = self.selected_book().unwrap().clone();
                    Action::LoadCover(book)
                },
                LayoutState::Reader => {
                    self.scroll_offset = self.scroll_offset.saturating_add(1);
                    Action::Nothing
                },
            },
            Command::Up => match self.layout_state {
                LayoutState::List => {
                    self.previous();
                    let book = self.selected_book().unwrap().clone();
                    Action::LoadCover(book)
                },
                LayoutState::Reader => {
                    self.scroll_offset = self.scroll_offset.saturating_sub(1);
                    Action::Nothing
                },
            },
            Command::Open => match self.selected_book() {
                Some(book) => {
                    let path = epub_path(book.as_str());
                    self.layout_state = LayoutState::Reader;
                    Action::OpenBook(path)
                },
                None => Action::Nothing,
            },
            Command::Back => match self.layout_state {
                LayoutState::Reader => Action::PreviousChapter,
                LayoutState::List => Action::Nothing,
            },
            Command::Forward => match self.layout_state {
                LayoutState::Reader => Action::NextChapter,
                LayoutState::List => Action::Nothing,
            },
            Command::Ignore => Action::Nothing,
        }
    }
}

/// `n` presses of the same key, from `v`.
pub open spec fn press_n(v: AppView, key: Key, n: nat) -> AppView
    decreases n,
{
    if n == 0 {
        v
    } else {
        press_n(v, key, (n - 1) as nat).step(key).0
    }
}

/// Every key press keeps the reader well formed: there is a book, and the
/// selection stays on one of them.
pub proof fn lemma_step_preserves_wf(v: AppView, key: Key)
    requires
        v.wf(),
    ensures
        v.step(key).0.wf(),
{
}

/// Moving down and then up leaves the reader as it was: in the list the
/// selection comes back (across the wrap from last to first too), in the
/// reader the scroll position does, unless it was already at its maximum.
pub proof fn lemma_up_undoes_down(v: AppView)
    requires
        v.wf(),
        v.selected is Some,
        v.layout_state == LayoutState::Reader ==> v.scroll_offset < u16::MAX,
    ensures
        v.step(Key::Down).0.step(Key::Up).0 == v,
{
}

/// Moving up and then down leaves the reader as it was, unless the reader
/// was scrolled to its first line.
pub proof fn lemma_down_undoes_up(v: AppView)
    requires
        v.wf(),
        v.selected is Some,
        v.layout_state == LayoutState::Reader ==> v.scroll_offset > 0,
    ensures
        v.step(Key::Up).0.step(Key::Down).0 == v,
{
}

/// Opening the selected book and pressing `q` comes back to the list just
/// as it was; pressing `q` on the list quits and changes nothing.
pub proof fn lemma_quit_returns_to_list(v: AppView)
    requires
        v.wf(),
        v.selected is Some,
        v.layout_state == LayoutState::List,
    ensures
        v.step(Key::Enter).0.step(Key::Char('q')).0 == v,
        v.step(Key::Char('q')) == (v, ActionView::Quit),
{
}

/// Pressing down `k` times in the list moves the selection `k` places,
/// wrapping around the end of the list.
pub proof fn lemma_down_moves_k_places(v: AppView, k: nat)
    requires
        v.wf(),
        v.layout_state == LayoutState::List,
        v.selected is Some,
    ensures
        press_n(v, Key::Down, k) == v.with_selected(
            ((v.selected->0 + k) % (v.books.len() as int)) as usize,
        ),
    decreases k,
{
    let len = v.books.len() as int;
    let i = v.selected->0 as int;
    if k == 0 {
        assert(i % len == i) by (nonlinear_arith)
            requires
                0 <= i < len,
        ;
    } else {
        lemma_down_moves_k_places(v, (k - 1) as nat);
        let j = (i + k - 1) % len;
        assert(0 <= j < len) by (nonlinear_arith)
            requires
                len > 0,
                j == (i + k - 1) % len,
        ;
        let w = v.with_selected(j as usize);
        assert(w.wf());
        if j == len - 1 {
            assert((i + k) % len == 0) by {
                vstd::arithmetic::div_mod::lemma_add_mod_noop(i + k - 1, 1, len);
                vstd::arithmetic::div_mod::lemma_mod_self_0(len);
                if len > 1 {
                    vstd::arithmetic::div_mod::lemma_small_mod(1, len as nat);
                } else {
                    vstd::arithmetic::div_mod::lemma_mod_self_0(1);
                    assert(0int % 1 == 0);
                }
            }
        } else {
            assert((i + k) % len == j + 1) by {
                vstd::arithmetic::div_mod::lemma_add_mod_noop(i + k - 1, 1, len);
                vstd::arithmetic::div_mod::lemma_small_mod(1, len as nat);
                vstd::arithmetic::div_mod::lemma_small_mod((j + 1) as nat, len as nat);
            }
        }
    }
}

/// Pressing down as many times as there are books brings the list back to
/// the book it started from.
pub proof fn lemma_down_cycles(v: AppView)
    requires
        v.wf(),
        v.layout_state == LayoutState::List,
        v.selected is Some,
    ensures
        press_n(v, Key::Down, v.books.len()) == v,
{
    lemma_down_moves_k_places(v, v.books.len());
    let len = v.books.len() as int;
    let i = v.selected->0 as int;
    assert((i + len) % len == i) by {
        vstd::arithmetic::div_mod::lemma_add_mod_noop(i, len, len);
        vstd::arithmetic::div_mod::lemma_mod_self_0(len);
        vstd::arithmetic::div_mod::lemma_small_mod(i as nat, len as nat);
    }
}

/// `after` has the books, chapter text and scroll position of `before`.
pub open spec fn same_content(before: AppView, after: AppView) -> bool {
    &&& after.books == before.books
    &&& after.chapter_text == before.chapter_text
    &&& after.scroll_offset == before.scroll_offset
}

/// `q` in the reader goes back to the book list and keeps the program
/// running; `q` on the list is the only way to quit, and changes nothing.
pub proof fn lemma_q_key(v: AppView)
    requires
        v.wf(),
    ensures
        v.layout_state == LayoutState::Reader ==> {
            let (w, action) = v.step(Key::Char('q'));
            &&& action == ActionView::Nothing
            &&& w.layout_state == LayoutState::List
            &&& w.selected == v.selected
            &&& same_content(v, w)
        },
        v.layout_state == LayoutState::List ==> v.step(Key::Char('q')) == (v, ActionView::Quit),
        forall|key: Key| #[trigger] v.step(key).1 == ActionView::Quit ==> key == Key::Char('q')
            && v.layout_state == LayoutState::List,
{
}

/// In the reader `l`/Right asks for the next chapter and `h`/Left for the
/// previous one, wherever the chapter is scrolled to, and the state stays as
/// it is; on the book list these keys do nothing.
pub proof fn lemma_chapter_keys(v: AppView, key: Key)
    requires
        v.wf(),
    ensures
        (key == Key::Char('l') || key == Key::Right) ==> v.step(key) == (
            v,
            if v.layout_state == LayoutState::Reader {
                ActionView::NextChapter
            } else {
                ActionView::Nothing
            },
        ),
        (key == Key::Char('h') || key == Key::Left) ==> v.step(key) == (
            v,
            if v.layout_state == LayoutState::Reader {
                ActionView::PreviousChapter
            } else {
                ActionView::Nothing
            },
        ),
{
}

/// Enter opens the epub file named after the highlighted title, in the
/// books directory, and shows the reader; with nothing highlighted it does
/// nothing.
pub proof fn lemma_enter_opens_selected_book(v: AppView)
    requires
        v.wf(),
    ensures
        forall|i: usize|
            v.selected == Some(i) ==> {
                let (w, action) = #[trigger] v.step(Key::Enter);
                &&& action == ActionView::OpenBook(
                    "/home/cody/workspaces/github/CodyBense/rupub/books/"@ + v.books[i as int]
                        + ".epub"@,
                )
                &&& w.layout_state == LayoutState::Reader
                &&& w.selected == v.selected
                &&& same_content(v, w)
            },
        v.selected is None ==> v.step(Key::Enter) == (v, ActionView::Nothing),
{
}

/// In the reader `j`/Down scrolls one line further and `k`/Up one line back,
/// stopping at the first line and at the largest offset; nothing else
/// changes.
pub proof fn lemma_scroll_keys(v: AppView, key: Key)
    requires
        v.wf(),
        v.layout_state == LayoutState::Reader,
    ensures
        (key == Key::Char('j') || key == Key::Down) ==> {
            let (w, action) = v.step(key);
            &&& action == ActionView::Nothing
            &&& w.scroll_offset == if v.scroll_offset < 65535 {
                v.scroll_offset + 1
            } else {
                65535
            }
            &&& w.books == v.books && w.selected == v.selected
            &&& w.chapter_text == v.chapter_text && w.layout_state == v.layout_state
        },
        (key == Key::Char('k') || key == Key::Up) ==> {
            let (w, action) = v.step(key);
            &&& action == ActionView::Nothing
            &&& w.scroll_offset == if v.scroll_offset > 0 {
                v.scroll_offset - 1
            } else {
                0
            }
            &&& w.books == v.books && w.selected == v.selected
            &&& w.chapter_text == v.chapter_text && w.layout_state == v.layout_state
        },
{
}

/// On the book list `j`/Down highlights the following title (the first after
/// the last) and `k`/Up the preceding one (the last before the first), and
/// each asks for the cover of the newly highlighted book.
pub proof fn lemma_list_keys(v: AppView, key: Key, i: usize)
    requires
        v.wf(),
        v.layout_state == LayoutState::List,
        v.selected == Some(i),
    ensures
        (key == Key::Char('j') || key == Key::Down) ==> {
            let j: int = if i + 1 < v.books.len() {
                i + 1
            } else {
                0
            };
            let (w, action) = v.step(key);
            &&& w.selected == Some(j as usize)
            &&& action == ActionView::LoadCover(v.books[j])
            &&& w.layout_state == LayoutState::List
            &&& same_content(v, w)
        },
        (key == Key::Char('k') || key == Key::Up) ==> {
            let j: int = if i > 0 {
                i - 1
            } else {
                v.books.len() - 1
            };
            let (w, action) = v.step(key);
            &&& w.selected == Some(j as usize)
            &&& action == ActionView::LoadCover(v.books[j])
            &&& w.layout_state == LayoutState::List
            &&& same_content(v, w)
        },
{
}

/// Keys without a binding change nothing and ask for nothing.
pub proof fn lemma_unbound_keys(v: AppView, key: Key)
    requires
        v.wf(),
        key == Key::Other || (key matches Key::Char(c) && c != 'q' && c != 'j' && c != 'k'
            && c != 'h' && c != 'l'),
    ensures
        v.step(key) == (v, ActionView::Nothing),
{
}

} // verus!
