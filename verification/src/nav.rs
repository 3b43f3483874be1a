//! The navigation state machine: a pure reducer from (state, event) to
//! (state, render directive). Sections, the two-level page drill, the flat
//! table and favorites cursors, and the search overlay all live here; the
//! reducer's whole behaviour is pinned by `spec_reduce`.

use vstd::prelude::*;

use crate::search::{spec_rank, match_search, Entry};
use crate::tree::{flat_items, spec_flat_items, tree_entries, tree_get, tree_len, PageTree};
use crate::wrap::{
    next_index, prev_index, spec_next_index, spec_prev_index, valid_index,
};

verus! {

/// The screen the session is on. `Auth` is transient: it is entered by the
/// login command and left only through a completion event.
#[derive(Clone, Copy, Debug, PartialEq, Eq, Structural)]
pub enum Section {
    Login,
    Auth,
    Home,
    Pages,
    Tables,
    Favorites,
}

/// One key the terminal delivers to the core.
#[derive(Clone, Copy, Debug, PartialEq, Eq, Structural)]
pub enum Key {
    Char(char),
    Up,
    Down,
    Enter,
    Esc,
    Backspace,
}

/// One event considered per tick: a key, or a collaborator completion
/// injected into the same stream.
#[derive(Clone, Copy, Debug, PartialEq, Eq, Structural)]
pub enum Event {
    Key(Key),
    Authenticated(bool),
    LogoutDone,
}

/// How much the caller must repaint after a step.
#[derive(Clone, Copy, Debug, PartialEq, Eq, Structural)]
pub enum Repaint {
    Skip,
    SearchBox,
    Full,
}

/// What the caller owes after a step: a repaint, and any collaborator
/// calls the step asks for.
#[derive(Clone, Copy, Debug, PartialEq, Eq, Structural)]
pub struct Directive {
    pub repaint: Repaint,
    pub issue_search: bool,
    pub begin_login: bool,
    pub request_logout: bool,
    pub quit: bool,
}

/// The search overlay: live flag, query buffer, ranked results and the
/// cursor over them.
pub struct SearchState {
    pub active: bool,
    pub query: Vec<char>,
    pub results: Vec<Entry>,
    pub cursor: usize,
}

/// The whole session state the reducer owns. `tables` caches the
/// flattened item list of `tree`; the well-formedness predicate ties the
/// two together.
pub struct AppState {
    pub section: Section,
    pub authenticated: bool,
    pub page_pos: usize,
    pub drilled: bool,
    pub item_pos: usize,
    pub table_pos: usize,
    pub favorite_pos: usize,
    pub search: SearchState,
    pub tables: Vec<String>,
    pub tree: PageTree,
    pub favorites: Vec<String>,
}

/// Mathematical image of the session state: every collection as a
/// sequence, every index as an integer.
#[verifier::ext_equal]
pub ghost struct NavView {
    pub section: Section,
    pub authenticated: bool,
    pub page_pos: int,
    pub drilled: bool,
    pub item_pos: int,
    pub table_pos: int,
    pub favorite_pos: int,
    pub search_active: bool,
    pub query: Seq<char>,
    pub results: Seq<Entry>,
    pub cursor: int,
    pub pages: Seq<(Seq<char>, Seq<Seq<char>>)>,
    pub favorites: Seq<Seq<char>>,
}

impl View for AppState {
    type V = NavView;

    open spec fn view(&self) -> NavView {
        NavView {
            section: self.section,
            authenticated: self.authenticated,
            page_pos: self.page_pos as int,
            drilled: self.drilled,
            item_pos: self.item_pos as int,
            table_pos: self.table_pos as int,
            favorite_pos: self.favorite_pos as int,
            search_active: self.search.active,
            query: self.search.query@,
            results: self.search.results@,
            cursor: self.search.cursor as int,
            pages: tree_entries(self.tree),
            favorites: self.favorites.deep_view(),
        }
    }
}

/// Every selection index lies in `[0, len)` of its axis (pinned at 0 on an
/// empty axis), the item index is 0 outside a drill, and a closed overlay
/// holds no query, results or cursor.
pub open spec fn nav_wf(s: NavView) -> bool {
    &&& valid_index(s.page_pos, s.pages.len() as int)
    &&& s.drilled ==> s.pages.len() > 0 && valid_index(
        s.item_pos,
        s.pages[s.page_pos].1.len() as int,
    )
    &&& !s.drilled ==> s.item_pos == 0
    &&& valid_index(s.table_pos, spec_flat_items(s.pages).len() as int)
    &&& valid_index(s.favorite_pos, s.favorites.len() as int)
    &&& valid_index(s.cursor, s.results.len() as int)
    &&& !s.search_active ==> s.query.len() == 0 && s.results.len() == 0 && s.cursor == 0
}

/// A directive that asks for nothing but the given repaint.
pub open spec fn repaint_only(repaint: Repaint) -> Directive {
    Directive {
        repaint,
        issue_search: false,
        begin_login: false,
        request_logout: false,
        quit: false,
    }
}

/// A step inside the open search overlay: characters edit the query and
/// re-issue the search, Up/Down wrap the cursor over the results, Esc
/// clears and closes the overlay, anything else is ignored.
pub open spec fn spec_reduce_overlay(s: NavView, k: Key) -> (NavView, Directive) {
    match k {
        Key::Char(c) => (
            NavView { query: s.query.push(c), cursor: 0, ..s },
            Directive { issue_search: true, ..repaint_only(Repaint::SearchBox) },
        ),
        Key::Backspace => (
            NavView {
                query: if s.query.len() == 0 {
                    s.query
                } else {
                    s.query.drop_last()
                },
                cursor: 0,
                ..s
            },
            Directive { issue_search: true, ..repaint_only(Repaint::SearchBox) },
        ),
        Key::Up => (
            NavView { cursor: spec_next_index(s.cursor, s.results.len() as int), ..s },
            repaint_only(Repaint::SearchBox),
        ),
        Key::Down => (
            NavView { cursor: spec_prev_index(s.cursor, s.results.len() as int), ..s },
            repaint_only(Repaint::SearchBox),
        ),
        Key::Esc => (
            NavView {
                search_active: false,
                query: Seq::<char>::empty(),
                results: Seq::<Entry>::empty(),
                cursor: 0,
                ..s
            },
            repaint_only(Repaint::Full),
        ),
        Key::Enter => (s, repaint_only(Repaint::Skip)),
    }
}

/// A step outside the overlay: section commands, wraparound moves on the
/// current axis, drill in and out of a page, and the quit request.
pub open spec fn spec_reduce_nav(s: NavView, k: Key) -> (NavView, Directive) {
    match k {
        Key::Char(c) => if c == 's' {
            (
                NavView { search_active: true, ..s },
                Directive { issue_search: true, ..repaint_only(Repaint::Full) },
            )
        } else if c == 'l' {
            if !s.authenticated {
                (
                    NavView { section: Section::Auth, ..s },
                    Directive { begin_login: true, ..repaint_only(Repaint::Full) },
                )
            } else {
                (s, Directive { request_logout: true, ..repaint_only(Repaint::Skip) })
            }
        } else if c == 'h' {
            (NavView { section: Section::Home, ..s }, repaint_only(Repaint::Full))
        } else if c == 'p' {
            (
                NavView { section: Section::Pages, drilled: false, page_pos: 0, item_pos: 0, ..s },
                repaint_only(Repaint::Full),
            )
        } else if c == 't' {
            (
                NavView { section: Section::Tables, table_pos: 0, ..s },
                repaint_only(Repaint::Full),
            )
        } else if c == 'f' {
            (
                NavView { section: Section::Favorites, favorite_pos: 0, ..s },
                repaint_only(Repaint::Full),
            )
        } else if c == 'q' {
            (s, Directive { quit: true, ..repaint_only(Repaint::Skip) })
        } else {
            (s, repaint_only(Repaint::Skip))
        },
        Key::Up => match s.section {
            Section::Pages => if s.drilled {
                (
                    NavView {
                        item_pos: spec_prev_index(s.item_pos, s.pages[s.page_pos].1.len() as int),
                        ..s
                    },
                    repaint_only(Repaint::Full),
                )
            } else {
                (
                    NavView { page_pos: spec_prev_index(s.page_pos, s.pages.len() as int), ..s },
                    repaint_only(Repaint::Full),
                )
            },
            Section::Tables => (
                NavView {
                    table_pos: spec_prev_index(s.table_pos, spec_flat_items(s.pages).len() as int),
                    ..s
                },
                repaint_only(Repaint::Full),
            ),
            Section::Favorites => (
                NavView {
                    favorite_pos: spec_prev_index(s.favorite_pos, s.favorites.len() as int),
                    ..s
                },
                repaint_only(Repaint::Full),
            ),
            _ => (s, repaint_only(Repaint::Skip)),
        },
        Key::Down => match s.section {
            Section::Pages => if s.drilled {
                (
                    NavView {
                        item_pos: spec_next_index(s.item_pos, s.pages[s.page_pos].1.len() as int),
                        ..s
                    },
                    repaint_only(Repaint::Full),
                )
            } else {
                (
                    NavView { page_pos: spec_next_index(s.page_pos, s.pages.len() as int), ..s },
                    repaint_only(Repaint::Full),
                )
            },
            Section::Tables => (
                NavView {
                    table_pos: spec_next_index(s.table_pos, spec_flat_items(s.pages).len() as int),
                    ..s
                },
                repaint_only(Repaint::Full),
            ),
            Section::Favorites => (
                NavView {
                    favorite_pos: spec_next_index(s.favorite_pos, s.favorites.len() as int),
                    ..s
                },
                repaint_only(Repaint::Full),
            ),
            _ => (s, repaint_only(Repaint::Skip)),
        },
        Key::Enter => if s.section is Pages && !s.drilled && s.pages.len() > 0 {
            (NavView { drilled: true, item_pos: 0, ..s }, repaint_only(Repaint::Full))
        } else if s.section is Pages && s.drilled {
            (s, repaint_only(Repaint::Full))
        } else {
            (s, repaint_only(Repaint::Skip))
        },
        Key::Esc => if s.section is Pages && s.drilled {
            (NavView { drilled: false, item_pos: 0, ..s }, repaint_only(Repaint::Full))
        } else {
            (NavView { section: Section::Home, ..s }, repaint_only(Repaint::Full))
        },
        Key::Backspace => (s, repaint_only(Repaint::Skip)),
    }
}

/// The whole transition relation of the core: what one event does to the
/// session state and what the caller owes afterwards.
pub open spec fn spec_reduce(s: NavView, ev: Event) -> (NavView, Directive) {
    match ev {
        Event::Key(k) => if s.search_active {
            spec_reduce_overlay(s, k)
        } else {
            spec_reduce_nav(s, k)
        },
        Event::Authenticated(ok) => if ok {
            (
                NavView { section: Section::Home, authenticated: true, ..s },
                repaint_only(Repaint::Full),
            )
        } else {
            (s, repaint_only(Repaint::Skip))
        },
        Event::LogoutDone => (
            NavView { section: Section::Login, authenticated: false, ..s },
            repaint_only(Repaint::Full),
        ),
    }
}

/// What a search response does: while the overlay is open, a delivered
/// set replaces the results with its ranking against the current query
/// and resets the cursor; a failed search keeps the previous results; a
/// response after the overlay closed is discarded.
pub open spec fn spec_apply_search(s: NavView, response: Option<Seq<Entry>>) -> NavView {
    if !s.search_active {
        s
    } else {
        match response {
            Option::Some(found) => NavView {
                results: spec_rank(s.query, found),
                cursor: 0,
                ..s
            },
            Option::None => s,
        }
    }
}

impl AppState {
    /// Selection indices in range, cached flat list in step with the
    /// tree, and a closed overlay empty.
    pub open spec fn wf(&self) -> bool {
        &&& nav_wf(self@)
        &&& self.tables.deep_view() == spec_flat_items(self@.pages)
    }

    /// A fresh session over the given tree and favorites: on the login
    /// screen, unauthenticated, nothing drilled, every cursor at 0, the
    /// overlay closed.
    pub fn new(tree: PageTree, favorites: Vec<String>) -> (state: AppState)
        ensures
            state.wf(),
            state@ == (NavView {
                section: Section::Login,
                authenticated: false,
                page_pos: 0,
                drilled: false,
                item_pos: 0,
                table_pos: 0,
                favorite_pos: 0,
                search_active: false,
                query: Seq::<char>::empty(),
                results: Seq::<Entry>::empty(),
                cursor: 0,
                pages: tree_entries(tree),
                favorites: favorites.deep_view(),
            }),
    {
        let tables = flat_items(&tree);
        let state = AppState {
            section: Section::Login,
            authenticated: false,
            page_pos: 0,
            drilled: false,
            item_pos: 0,
            table_pos: 0,
            favorite_pos: 0,
            search: SearchState { active: false, query: Vec::new(), results: Vec::new(), cursor: 0 },
            tables,
            tree,
            favorites,
        };
        proof {
            assert(state@ =~= (NavView {
                section: Section::Login,
                authenticated: false,
                page_pos: 0,
                drilled: false,
                item_pos: 0,
                table_pos: 0,
                favorite_pos: 0,
                search_active: false,
                query: Seq::<char>::empty(),
                results: Seq::<Entry>::empty(),
                cursor: 0,
                pages: tree_entries(state.tree),
                favorites: state.favorites.deep_view(),
            }));
        }
        state
    }

    /// Move the session to the given screen; nothing else changes.
    pub fn set_section(&mut self, section: Section)
        requires
            old(self).wf(),
        ensures
            final(self).wf(),
            final(self)@ == (NavView { section, ..old(self)@ }),
    {
        self.section = section;
        proof {
            assert(self@ =~= (NavView { section, ..old(self)@ }));
        }
    }

    /// Record whether the session is authenticated; nothing else changes.
    pub fn set_auth(&mut self, value: bool)
        requires
            old(self).wf(),
        ensures
            final(self).wf(),
            final(self)@ == (NavView { authenticated: value, ..old(self)@ }),
    {
        self.authenticated = value;
        proof {
            assert(self@ =~= (NavView { authenticated: value, ..old(self)@ }));
        }
    }

    /// One step of the state machine: exactly `spec_reduce`, and
    /// well-formedness survives every event.
    pub fn reduce(&mut self, event: Event) -> (d: Directive)
        requires
            old(self).wf(),
        ensures
            final(self).wf(),
            (final(self)@, d) == spec_reduce(old(self)@, event),
    {
        match event {
            Event::Key(k) => if self.search.active {
                self.reduce_overlay(k)
            } else {
                self.reduce_nav(k)
            },
            Event::Authenticated(ok) => if ok {
                self.section = Section::Home;
                self.authenticated = true;
                proof {
                    assert(self@ =~= spec_reduce(old(self)@, event).0);
                }
                repaint_only_exec(Repaint::Full)
            } else {
                Directive {
                    repaint: Repaint::Skip,
                    issue_search: false,
                    begin_login: false,
                    request_logout: false,
                    quit: false,
                }
            },
            Event::LogoutDone => {
                self.section = Section::Login;
                self.authenticated = false;
                proof {
                    assert(self@ =~= spec_reduce(old(self)@, event).0);
                }
                repaint_only_exec(Repaint::Full)
            },
        }
    }

    /// The overlay half of the reducer.
    fn reduce_overlay(&mut self, k: Key) -> (d: Directive)
        requires
            old(self).wf(),
            old(self).search.active,
        ensures
            final(self).wf(),
            (final(self)@, d) == spec_reduce_overlay(old(self)@, k),
    {
        match k {
            Key::Char(c) => {
                self.search.query.push(c);
                self.search.cursor = 0;
                proof {
                    assert(self@ =~= spec_reduce_overlay(old(self)@, k).0);
                }
                Directive {
                    repaint: Repaint::SearchBox,
                    issue_search: true,
                    begin_login: false,
                    request_logout: false,
                    quit: false,
                }
            },
            Key::Backspace => {
                let _ = self.search.query.pop();
                self.search.cursor = 0;
                proof {
                    if old(self)@.query.len() > 0 {
                        assert(self.search.query@ =~= old(self)@.query.drop_last());
                    }
                    assert(self@ =~= spec_reduce_overlay(old(self)@, k).0);
                }
                Directive {
                    repaint: Repaint::SearchBox,
                    issue_search: true,
                    begin_login: false,
                    request_logout: false,
                    quit: false,
                }
            },
            Key::Up => {
                self.search.cursor = next_index(self.search.cursor, self.search.results.len());
                proof {
                    assert(self@ =~= spec_reduce_overlay(old(self)@, k).0);
                }
                repaint_only_exec(Repaint::SearchBox)
            },
            Key::Down => {
                self.search.cursor = prev_index(self.search.cursor, self.search.results.len());
                proof {
                    assert(self@ =~= spec_reduce_overlay(old(self)@, k).0);
                }
                repaint_only_exec(Repaint::SearchBox)
            },
            Key::Esc => {
                self.search.active = false;
                self.search.query = Vec::new();
                self.search.results = Vec::new();
                self.search.cursor = 0;
                proof {
                    assert(self@ =~= spec_reduce_overlay(old(self)@, k).0);
                }
                repaint_only_exec(Repaint::Full)
            },
            Key::Enter => repaint_only_exec(Repaint::Skip),
        }
    }

    /// The section-navigation half of the reducer.
    fn reduce_nav(&mut self, k: Key) -> (d: Directive)
        requires
            old(self).wf(),
            !old(self).search.active,
        ensures
            final(self).wf(),
            (final(self)@, d) == spec_reduce_nav(old(self)@, k),
    {
        match k {
            Key::Char(c) => {
                if c == 's' {
                    self.search.active = true;
                    proof {
                        assert(self@ =~= spec_reduce_nav(old(self)@, k).0);
                    }
                    Directive {
                        repaint: Repaint::Full,
                        issue_search: true,
                        begin_login: false,
                        request_logout: false,
                        quit: false,
                    }
                } else if c == 'l' {
                    if !self.authenticated {
                        self.section = Section::Auth;
                        proof {
                            assert(self@ =~= spec_reduce_nav(old(self)@, k).0);
                        }
                        Directive {
                            repaint: Repaint::Full,
                            issue_search: false,
                            begin_login: true,
                            request_logout: false,
                            quit: false,
                        }
                    } else {
                        Directive {
                            repaint: Repaint::Skip,
                            issue_search: false,
                            begin_login: false,
                            request_logout: true,
                            quit: false,
                        }
                    }
                } else if c == 'h' {
                    self.section = Section::Home;
                    proof {
                        assert(self@ =~= spec_reduce_nav(old(self)@, k).0);
                    }
                    repaint_only_exec(Repaint::Full)
                } else if c == 'p' {
                    self.section = Section::Pages;
                    self.drilled = false;
                    self.page_pos = 0;
                    self.item_pos = 0;
                    proof {
                        assert(self@ =~= spec_reduce_nav(old(self)@, k).0);
                    }
                    repaint_only_exec(Repaint::Full)
                } else if c == 't' {
                    self.section = Section::Tables;
                    self.table_pos = 0;
                    proof {
                        assert(self@ =~= spec_reduce_nav(old(self)@, k).0);
                    }
                    repaint_only_exec(Repaint::Full)
                } else if c == 'f' {
                    self.section = Section::Favorites;
                    self.favorite_pos = 0;
                    proof {
                        assert(self@ =~= spec_reduce_nav(old(self)@, k).0);
                    }
                    repaint_only_exec(Repaint::Full)
                } else if c == 'q' {
                    Directive {
                        repaint: Repaint::Skip,
                        issue_search: false,
                        begin_login: false,
                        request_logout: false,
                        quit: true,
                    }
                } else {
                    repaint_only_exec(Repaint::Skip)
                }
            },
            Key::Up => match self.section {
                Section::Pages => {
                    if self.drilled {
                        let entry = tree_get(&self.tree, self.page_pos);
                        let items_len = entry.1.len();
                        proof {
                            assert(entry.1.deep_view().len() == entry.1@.len());
                        }
                        self.item_pos = prev_index(self.item_pos, items_len);
                    } else {
                        let pages_len = tree_len(&self.tree);
                        self.page_pos = prev_index(self.page_pos, pages_len);
                    }
                    proof {
                        assert(self@ =~= spec_reduce_nav(old(self)@, k).0);
                    }
                    repaint_only_exec(Repaint::Full)
                },
                Section::Tables => {
                    proof {
                        assert(self.tables.deep_view().len() == self.tables@.len());
                    }
                    self.table_pos = prev_index(self.table_pos, self.tables.len());
                    proof {
                        assert(self@ =~= spec_reduce_nav(old(self)@, k).0);
                    }
                    repaint_only_exec(Repaint::Full)
                },
                Section::Favorites => {
                    proof {
                        assert(self.favorites.deep_view().len() == self.favorites@.len());
                    }
                    self.favorite_pos = prev_index(self.favorite_pos, self.favorites.len());
                    proof {
                        assert(self@ =~= spec_reduce_nav(old(self)@, k).0);
                    }
                    repaint_only_exec(Repaint::Full)
                },
                _ => repaint_only_exec(Repaint::Skip),
            },
            Key::Down => match self.section {
                Section::Pages => {
                    if self.drilled {
                        let entry = tree_get(&self.tree, self.page_pos);
                        let items_len = entry.1.len();
                        proof {
                            assert(entry.1.deep_view().len() == entry.1@.len());
                        }
                        self.item_pos = next_index(self.item_pos, items_len);
                    } else {
                        let pages_len = tree_len(&self.tree);
                        self.page_pos = next_index(self.page_pos, pages_len);
                    }
                    proof {
                        assert(self@ =~= spec_reduce_nav(old(self)@, k).0);
                    }
                    repaint_only_exec(Repaint::Full)
                },
                Section::Tables => {
                    proof {
                        assert(self.tables.deep_view().len() == self.tables@.len());
                    }
                    self.table_pos = next_index(self.table_pos, self.tables.len());
                    proof {
                        assert(self@ =~= spec_reduce_nav(old(self)@, k).0);
                    }
                    repaint_only_exec(Repaint::Full)
                },
                Section::Favorites => {
                    proof {
                        assert(self.favorites.deep_view().len() == self.favorites@.len());
                    }
                    self.favorite_pos = next_index(self.favorite_pos, self.favorites.len());
                    proof {
                        assert(self@ =~= spec_reduce_nav(old(self)@, k).0);
                    }
                    repaint_only_exec(Repaint::Full)
                },
                _ => repaint_only_exec(Repaint::Skip),
            },
            Key::Enter => {
                if matches!(self.section, Section::Pages) && !self.drilled {
                    let pages_len = tree_len(&self.tree);
                    if pages_len > 0 {
                        self.drilled = true;
                        self.item_pos = 0;
                        proof {
                            assert(self@ =~= spec_reduce_nav(old(self)@, k).0);
                        }
                        repaint_only_exec(Repaint::Full)
                    } else {
                        repaint_only_exec(Repaint::Skip)
                    }
                } else if matches!(self.section, Section::Pages) {
                    repaint_only_exec(Repaint::Full)
                } else {
                    repaint_only_exec(Repaint::Skip)
                }
            },
            Key::Esc => {
                if matches!(self.section, Section::Pages) && self.drilled {
                    self.drilled = false;
                    self.item_pos = 0;
                    proof {
                        assert(self@ =~= spec_reduce_nav(old(self)@, k).0);
                    }
                    repaint_only_exec(Repaint::Full)
                } else {
                    self.section = Section::Home;
                    proof {
                        assert(self@ =~= spec_reduce_nav(old(self)@, k).0);
                    }
                    repaint_only_exec(Repaint::Full)
                }
            },
            Key::Backspace => repaint_only_exec(Repaint::Skip),
        }
    }

    /// Deliver the search collaborator's answer for the current query:
    /// exactly `spec_apply_search`. A failure (`None`) leaves the
    /// previous results on display rather than clearing them.
    pub fn apply_search_results(&mut self, response: Option<Vec<Entry>>)
        requires
            old(self).wf(),
        ensures
            final(self).wf(),
            final(self)@ == spec_apply_search(
                old(self)@,
                match response {
                    Option::Some(found) => Option::Some(found@),
                    Option::None => Option::None,
                },
            ),
    {
        if !self.search.active {
            return;
        }
        match response {
            Option::Some(found) => {
                let ranked = match_search(&self.search.query, found);
                self.search.results = ranked;
                self.search.cursor = 0;
                proof {
                    assert(self@ =~= spec_apply_search(old(self)@, Option::Some(found@)));
                }
            },
            Option::None => {},
        }
    }
}

/// A directive asking for nothing but the given repaint.
fn repaint_only_exec(repaint: Repaint) -> (d: Directive)
    ensures
        d == repaint_only(repaint),
{
    Directive {
        repaint,
        issue_search: false,
        begin_login: false,
        request_logout: false,
        quit: false,
    }
}

/// The state after `k` Down keys.
pub open spec fn spec_downs(s: NavView, k: nat) -> NavView
    decreases k,
{
    if k == 0 {
        s
    } else {
        spec_reduce(spec_downs(s, (k - 1) as nat), Event::Key(Key::Down)).0
    }
}

/// In the tables section, Down keys only step the flat cursor: after `k`
/// of them the cursor has taken `k` "next" steps and nothing else moved.
pub proof fn lemma_downs_in_tables(s: NavView, k: nat)
    requires
        s.section is Tables,
        !s.search_active,
    ensures
        spec_downs(s, k) == (NavView {
            table_pos: crate::wrap::spec_iter_next(
                s.table_pos,
                spec_flat_items(s.pages).len() as int,
                k,
            ),
            ..s
        }),
    decreases k,
{
    if k == 0 {
        assert(spec_downs(s, 0) =~= (NavView { table_pos: s.table_pos, ..s }));
    } else {
        lemma_downs_in_tables(s, (k - 1) as nat);
        assert(spec_downs(s, k) =~= (NavView {
            table_pos: crate::wrap::spec_iter_next(
                s.table_pos,
                spec_flat_items(s.pages).len() as int,
                k,
            ),
            ..s
        }));
    }
}

/// The cyclic-group law at the reducer: in a tables section over `n > 0`
/// items, `n` Down keys return the whole state — cursor included — to
/// where it started.
pub proof fn lemma_tables_full_cycle(s: NavView)
    requires
        nav_wf(s),
        s.section is Tables,
        !s.search_active,
        spec_flat_items(s.pages).len() > 0,
    ensures
        spec_downs(s, spec_flat_items(s.pages).len() as nat) == s,
{
    let n = spec_flat_items(s.pages).len() as int;
    lemma_downs_in_tables(s, n as nat);
    crate::wrap::lemma_next_cycle(s.table_pos, n);
    assert((NavView { table_pos: s.table_pos, ..s }) =~= s);
}

/// Toggling the search overlay on and then off with nothing typed
/// restores the state exactly: section, drill state, every selection
/// index — indeed the whole state — are as before.
pub proof fn lemma_overlay_roundtrip(s: NavView)
    requires
        nav_wf(s),
        !s.search_active,
    ensures
        spec_reduce(spec_reduce(s, Event::Key(Key::Char('s'))).0, Event::Key(Key::Esc)).0 == s,
{
    let s1 = spec_reduce(s, Event::Key(Key::Char('s'))).0;
    let s2 = spec_reduce(s1, Event::Key(Key::Esc)).0;
    assert(s.query =~= Seq::<char>::empty());
    assert(s.results =~= Seq::<Entry>::empty());
    assert(s2 =~= s);
}

/// Drilling into the selected page — whatever its item count, zero
/// included — keeps the page index, puts the item index at 0, and leaves
/// the state well-formed; it never faults.
pub proof fn lemma_drill_in(s: NavView)
    requires
        nav_wf(s),
        !s.search_active,
        s.section is Pages,
        !s.drilled,
        s.pages.len() > 0,
    ensures
        ({
            let stepped = spec_reduce(s, Event::Key(Key::Enter)).0;
            &&& stepped.drilled
            &&& stepped.item_pos == 0
            &&& stepped.page_pos == s.page_pos
            &&& stepped.section == s.section
            &&& nav_wf(stepped)
        }),
{
}

} // verus!
