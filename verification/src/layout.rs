//! What each screen shows, computed as plain data: panel rows with their
//! highlight and favorite marks, the seven-row scroll window, the control
//! bar entries and their columns, the search overlay's geometry, query
//! truncation and the `[x]` key-label split. Drawing these rows is the
//! caller's business; which rows, in which state, is decided here.

use vstd::prelude::*;

use crate::dims::{dims_wf, spec_y_search, Dimensions};
use crate::nav::{nav_wf, AppState, Event, Key, NavView, Section, spec_reduce};
use crate::search::Entry;
use crate::tree::spec_flat_items;
use crate::wrap::valid_index;

verus! {

/// Rows a flat scrolling panel shows at once.
pub const PAGE_ROWS: usize = 7;

/// One panel row: its text, whether it is the highlighted row, and
/// whether the name is among the favorites.
#[derive(Debug)]
pub struct RowPlan {
    pub text: String,
    pub selected: bool,
    pub favorite: bool,
}

/// Mathematical image of a panel row.
#[verifier::ext_equal]
pub ghost struct RowView {
    pub text: Seq<char>,
    pub selected: bool,
    pub favorite: bool,
}

impl View for RowPlan {
    type V = RowView;

    open spec fn view(&self) -> RowView {
        RowView { text: self.text@, selected: self.selected, favorite: self.favorite }
    }
}

impl DeepView for RowPlan {
    type V = RowView;

    open spec fn deep_view(&self) -> RowView {
        self@
    }
}

/// One control-bar entry and the cell it starts at.
#[derive(Debug)]
pub struct CtrlItem {
    pub text: String,
    pub x: u16,
    pub y: u16,
}

/// Mathematical image of a control-bar entry.
#[verifier::ext_equal]
pub ghost struct CtrlView {
    pub text: Seq<char>,
    pub x: int,
    pub y: int,
}

impl View for CtrlItem {
    type V = CtrlView;

    open spec fn view(&self) -> CtrlView {
        CtrlView { text: self.text@, x: self.x as int, y: self.y as int }
    }
}

impl DeepView for CtrlItem {
    type V = CtrlView;

    open spec fn deep_view(&self) -> CtrlView {
        self@
    }
}

/// Whether `name` occurs among `names`.
fn contains_name(names: &Vec<String>, name: &String) -> (found: bool)
    ensures
        found == names.deep_view().contains(name@),
{
    let n = names.len();
    let mut i: usize = 0;
    while i < n
        invariant
            n == names.len(),
            i <= n,
            forall|k: int| 0 <= k < i ==> names.deep_view()[k] != name@,
        decreases n - i,
    {
        if names[i].eq(name) {
            assert(names.deep_view()[i as int] == name@);
            return true;
        }
        i += 1;
    }
    assert(forall|k: int| 0 <= k < names.deep_view().len() ==> names.deep_view()[k] != name@);
    false
}

/// First row of the seven-row window that holds `pos`.
pub open spec fn spec_window_start(pos: int) -> int {
    7 * (pos / 7)
}

/// The window is recomputed as `7 * (pos / 7)`, so it always holds the
/// highlighted row.
pub fn window_start(pos: usize) -> (start: usize)
    ensures
        start == spec_window_start(pos as int),
        start <= pos,
        pos < start + 7,
{
    proof {
        vstd::arithmetic::div_mod::lemma_fundamental_div_mod(pos as int, 7);
        vstd::arithmetic::div_mod::lemma_mod_bound(pos as int, 7);
    }
    7 * (pos / 7)
}

/// The visible window of a flat list: up to seven rows starting at the
/// window of `pos`, the row of `pos` highlighted, favorites flagged.
pub open spec fn spec_flat_rows(
    items: Seq<Seq<char>>,
    pos: int,
    favorites: Seq<Seq<char>>,
) -> Seq<RowView> {
    let start = spec_window_start(pos);
    let count = if items.len() - start >= 7 {
        7
    } else {
        items.len() - start
    };
    Seq::new(
        count as nat,
        |j: int|
            RowView {
                text: items[start + j],
                selected: start + j == pos,
                favorite: favorites.contains(items[start + j]),
            },
    )
}

/// The rows a flat scrolling panel (tables, favorites) shows for the
/// given selection.
pub fn flat_panel(items: &Vec<String>, pos: usize, favorites: &Vec<String>) -> (rows: Vec<RowPlan>)
    requires
        valid_index(pos as int, items@.len() as int),
    ensures
        rows.deep_view() == spec_flat_rows(items.deep_view(), pos as int, favorites.deep_view()),
{
    let start = window_start(pos);
    let len = items.len();
    let end = if len - start > PAGE_ROWS {
        start + PAGE_ROWS
    } else {
        len
    };
    let mut rows: Vec<RowPlan> = Vec::new();
    let mut j: usize = start;
    while j < end
        invariant
            start == spec_window_start(pos as int),
            start <= pos as int,
            len == items@.len(),
            start <= j <= end <= len,
            end - start <= 7,
            (end == len || end - start == 7),
            rows.deep_view() =~= spec_flat_rows(
                items.deep_view(),
                pos as int,
                favorites.deep_view(),
            ).take(j - start),
        decreases end - j,
    {
        let ghost before = rows.deep_view();
        let text = items[j].clone();
        let favorite = contains_name(favorites, &items[j]);
        rows.push(RowPlan { text, selected: j == pos, favorite });
        proof {
            let full = spec_flat_rows(items.deep_view(), pos as int, favorites.deep_view());
            assert(items.deep_view()[j as int] == items@[j as int]@);
            let elem = RowView {
                text: items.deep_view()[j as int],
                selected: j as int == pos as int,
                favorite: favorites.deep_view().contains(items.deep_view()[j as int]),
            };
            assert(full[j - start] == elem);
            assert(rows.deep_view() =~= before.push(elem));
            assert(before.push(elem) =~= full.take(j - start + 1));
            assert(rows.deep_view() =~= full.take(j - start + 1));
        }
        j += 1;
    }
    proof {
        let full = spec_flat_rows(items.deep_view(), pos as int, favorites.deep_view());
        assert(full.take(end - start) =~= full);
    }
    rows
}

/// The page list with the current page highlighted.
pub open spec fn spec_page_rows(
    pages: Seq<(Seq<char>, Seq<Seq<char>>)>,
    page_pos: int,
) -> Seq<RowView> {
    Seq::new(
        pages.len(),
        |i: int| RowView { text: pages[i].0, selected: i == page_pos, favorite: false },
    )
}

/// The items of the selected page: highlighted only while drilled,
/// favorites flagged.
pub open spec fn spec_item_rows(
    items: Seq<Seq<char>>,
    drilled: bool,
    item_pos: int,
    favorites: Seq<Seq<char>>,
) -> Seq<RowView> {
    Seq::new(
        items.len(),
        |i: int|
            RowView {
                text: items[i],
                selected: drilled && i == item_pos,
                favorite: favorites.contains(items[i]),
            },
    )
}

/// The two columns of the pages screen: the page list, and the selected
/// page's items.
pub struct PagesPanel {
    pub page_rows: Vec<RowPlan>,
    pub item_rows: Vec<RowPlan>,
}

/// What the pages screen shows: every page with the current one
/// highlighted, and beside it the current page's items — an empty column
/// when there are no pages at all.
pub fn pages_panel(state: &AppState) -> (panel: PagesPanel)
    requires
        state.wf(),
    ensures
        panel.page_rows.deep_view() == spec_page_rows(state@.pages, state@.page_pos),
        state@.pages.len() > 0 ==> panel.item_rows.deep_view() == spec_item_rows(
            state@.pages[state@.page_pos].1,
            state@.drilled,
            state@.item_pos,
            state@.favorites,
        ),
        state@.pages.len() == 0 ==> panel.item_rows.deep_view() == Seq::<RowView>::empty(),
{
    let pages_len = crate::tree::tree_len(&state.tree);
    let mut page_rows: Vec<RowPlan> = Vec::new();
    let mut i: usize = 0;
    while i < pages_len
        invariant
            pages_len == state@.pages.len(),
            i <= pages_len,
            page_rows.deep_view() =~= spec_page_rows(state@.pages, state@.page_pos).take(i as int),
        decreases pages_len - i,
    {
        let (name, _) = crate::tree::tree_get(&state.tree, i);
        let ghost before = page_rows.deep_view();
        page_rows.push(RowPlan { text: name, selected: i == state.page_pos, favorite: false });
        proof {
            let full = spec_page_rows(state@.pages, state@.page_pos);
            let elem = RowView {
                text: state@.pages[i as int].0,
                selected: i as int == state@.page_pos,
                favorite: false,
            };
            assert(full[i as int] == elem);
            assert(page_rows.deep_view() =~= before.push(elem));
            assert(before.push(elem) =~= full.take(i + 1));
            assert(page_rows.deep_view() =~= full.take(i + 1));
        }
        i += 1;
    }
    proof {
        assert(spec_page_rows(state@.pages, state@.page_pos).take(pages_len as int)
            =~= spec_page_rows(state@.pages, state@.page_pos));
    }

    let mut item_rows: Vec<RowPlan> = Vec::new();
    if pages_len > 0 {
        let (_, items) = crate::tree::tree_get(&state.tree, state.page_pos);
        let ghost item_names = state@.pages[state@.page_pos as int].1;
        let items_len = items.len();
        let mut j: usize = 0;
        while j < items_len
            invariant
                items.deep_view() == item_names,
                items_len == item_names.len(),
                j <= items_len,
                state.wf(),
                item_rows.deep_view() =~= spec_item_rows(
                    item_names,
                    state@.drilled,
                    state@.item_pos,
                    state@.favorites,
                ).take(j as int),
            decreases items_len - j,
        {
            let ghost before = item_rows.deep_view();
            let text = items[j].clone();
            let favorite = contains_name(&state.favorites, &items[j]);
            item_rows.push(
                RowPlan { text, selected: state.drilled && j == state.item_pos, favorite },
            );
            proof {
                let full = spec_item_rows(
                    item_names,
                    state@.drilled,
                    state@.item_pos,
                    state@.favorites,
                );
                assert(items.deep_view()[j as int] == items@[j as int]@);
                let elem = RowView {
                    text: item_names[j as int],
                    selected: state@.drilled && j as int == state@.item_pos,
                    favorite: state@.favorites.contains(item_names[j as int]),
                };
                assert(full[j as int] == elem);
                assert(item_rows.deep_view() =~= before.push(elem));
                assert(before.push(elem) =~= full.take(j + 1));
                assert(item_rows.deep_view() =~= full.take(j + 1));
            }
            j += 1;
        }
        proof {
            let full = spec_item_rows(
                item_names,
                state@.drilled,
                state@.item_pos,
                state@.favorites,
            );
            assert(full.take(items_len as int) =~= full);
        }
    }
    PagesPanel { page_rows, item_rows }
}

/// The ranked results as overlay rows, the cursor's row highlighted.
pub open spec fn spec_overlay_rows(results: Seq<Entry>, cursor: int) -> Seq<RowView> {
    Seq::new(
        results.len(),
        |i: int|
            RowView { text: results[i].object.title@, selected: i == cursor, favorite: false },
    )
}

/// The search overlay's result rows, in rank order, with the cursor's
/// row highlighted.
pub fn overlay_rows(results: &Vec<Entry>, cursor: usize) -> (rows: Vec<RowPlan>)
    requires
        valid_index(cursor as int, results@.len() as int),
    ensures
        rows.deep_view() == spec_overlay_rows(results@, cursor as int),
{
    let n = results.len();
    let mut rows: Vec<RowPlan> = Vec::new();
    let mut i: usize = 0;
    while i < n
        invariant
            n == results@.len(),
            i <= n,
            rows.deep_view() =~= spec_overlay_rows(results@, cursor as int).take(i as int),
        decreases n - i,
    {
        let ghost before = rows.deep_view();
        let text = results[i].object.title.clone();
        rows.push(RowPlan { text, selected: i == cursor, favorite: false });
        proof {
            let full = spec_overlay_rows(results@, cursor as int);
            let elem = RowView {
                text: results@[i as int].object.title@,
                selected: i as int == cursor as int,
                favorite: false,
            };
            assert(full[i as int] == elem);
            assert(rows.deep_view() =~= before.push(elem));
            assert(before.push(elem) =~= full.take(i + 1));
            assert(rows.deep_view() =~= full.take(i + 1));
        }
        i += 1;
    }
    proof {
        assert(spec_overlay_rows(results@, cursor as int).take(n as int) =~= spec_overlay_rows(
            results@,
            cursor as int,
        ));
    }
    rows
}

/// Query text as the search bar shows it: unchanged while it fits, else
/// an ellipsis and the tail that fits beside it.
pub fn truncate_query(query: &Vec<char>, box_width: u16) -> (shown: Vec<char>)
    requires
        box_width >= 4,
    ensures
        query@.len() <= 2 * box_width - 7 ==> shown@ == query@,
        query@.len() > 2 * box_width - 7 ==> shown@ == seq!['.', '.', '.'] + query@.skip(
            query@.len() - (2 * box_width - 7),
        ),
{
    let cap: usize = 2 * (box_width as usize) - 7;
    let len = query.len();
    let mut shown: Vec<char> = Vec::new();
    if len <= cap {
        let mut i: usize = 0;
        while i < len
            invariant
                len == query@.len(),
                i <= len,
                shown@ =~= query@.take(i as int),
            decreases len - i,
        {
            shown.push(query[i]);
            i += 1;
        }
        proof {
            assert(query@.take(len as int) =~= query@);
        }
    } else {
        shown.push('.');
        shown.push('.');
        shown.push('.');
        let from = len - cap;
        let mut i: usize = from;
        while i < len
            invariant
                len == query@.len(),
                from == len - cap,
                from <= i <= len,
                shown@ =~= seq!['.', '.', '.'] + query@.subrange(from as int, i as int),
            decreases len - i,
        {
            shown.push(query[i]);
            i += 1;
        }
        proof {
            assert(query@.subrange(from as int, len as int) =~= query@.skip(from as int));
        }
    }
    shown
}

/// Where the first `needle` sits in `s` at or past `from`, or `s.len()`
/// when it never occurs.
pub open spec fn spec_find_char(s: Seq<char>, needle: char, from: int) -> int
    decreases s.len() - from,
{
    if from < 0 || from >= s.len() {
        s.len() as int
    } else if s[from] == needle {
        from
    } else {
        spec_find_char(s, needle, from + 1)
    }
}

/// Least occurrence of `needle` at or past `from`, or the length.
fn find_char(s: &Vec<char>, needle: char, from: usize) -> (at: usize)
    requires
        from <= s@.len(),
    ensures
        at == spec_find_char(s@, needle, from as int),
        from <= at <= s@.len(),
        at < s@.len() ==> s@[at as int] == needle,
    decreases s@.len() - from,
{
    if from >= s.len() {
        s.len()
    } else if s[from] == needle {
        from
    } else {
        find_char(s, needle, from + 1)
    }
}

/// A key label split for display: a `[x]` label falls into the part up to
/// and including `[`, the key between the brackets, and the rest from `]`
/// on. A label without the brackets is not split and is not shown.
pub fn split_ctrl(text: &Vec<char>) -> (parts: Option<(Vec<char>, Vec<char>, Vec<char>)>)
    ensures
        ({
            let i = spec_find_char(text@, '[', 0);
            let j = spec_find_char(text@, ']', i + 1);
            &&& parts is Some <==> (i < text@.len() && j < text@.len())
            &&& parts matches Some(p) ==> {
                &&& p.0@ == text@.take(i + 1)
                &&& p.1@ == text@.subrange(i + 1, j)
                &&& p.2@ == text@.skip(j)
            }
        }),
{
    let i = find_char(text, '[', 0);
    if i >= text.len() {
        return None;
    }
    let j = find_char(text, ']', i + 1);
    if j >= text.len() {
        return None;
    }
    let left_end = i + 1;
    let mut left: Vec<char> = Vec::new();
    let mut k: usize = 0;
    while k < left_end
        invariant
            left_end == i + 1,
            left_end <= text@.len(),
            k <= left_end,
            left@ =~= text@.take(k as int),
        decreases i + 1 - k,
    {
        left.push(text[k]);
        k += 1;
    }
    let mut middle: Vec<char> = Vec::new();
    let mut k2: usize = i + 1;
    while k2 < j
        invariant
            i + 1 <= j <= text@.len(),
            i + 1 <= k2 <= j,
            middle@ =~= text@.subrange(i + 1, k2 as int),
        decreases j - k2,
    {
        middle.push(text[k2]);
        k2 += 1;
    }
    let mut right: Vec<char> = Vec::new();
    let mut k3: usize = j;
    while k3 < text.len()
        invariant
            j <= text@.len(),
            j <= k3 <= text@.len(),
            right@ =~= text@.subrange(j as int, k3 as int),
        decreases text@.len() - k3,
    {
        right.push(text[k3]);
        k3 += 1;
    }
    proof {
        assert(text@.subrange(j as int, text@.len() as int) =~= text@.skip(j as int));
    }
    Some((left, middle, right))
}

/// The control bar's entries with their columns: the menu or exit-search
/// label at the left edge, and — outside the overlay — quit, help and the
/// auth-dependent login/logout label packed against the right edge.
pub open spec fn spec_control_items(
    search_enabled: bool,
    authenticated: bool,
    d: Dimensions,
) -> Seq<CtrlView> {
    let lx = d.x_center - d.content_width / 2;
    let rx = d.x_center + d.content_width / 2;
    let y = d.y_center + d.content_height / 2 - 1;
    if search_enabled {
        seq![CtrlView { text: "[esc] exit search"@, x: lx, y }]
    } else {
        seq![
            CtrlView { text: "[m]enu"@, x: lx, y },
            CtrlView { text: "[q]uit"@, x: rx - 6, y },
            CtrlView { text: "[h]elp"@, x: rx - 13, y },
            CtrlView {
                text: if authenticated {
                    "[l]ogout"@
                } else {
                    " [l]ogin"@
                },
                x: rx - 22,
                y,
            },
        ]
    }
}

/// The separator line and the control entries under the content box.
pub struct ControlsPlan {
    pub line_x: u16,
    pub line_y: u16,
    pub line_width: u16,
    pub items: Vec<CtrlItem>,
}

/// The control bar for the current mode: its separator line, and each
/// label with the exact cell it starts at.
pub fn controls_plan(search_enabled: bool, authenticated: bool, d: &Dimensions) -> (plan:
    ControlsPlan)
    requires
        dims_wf(*d),
        d.x_center + d.content_width / 2 >= 22,
        d.y_center + d.content_height / 2 >= 2,
    ensures
        plan.line_x == d.x_center - d.content_width / 2,
        plan.line_y == d.y_center + d.content_height / 2 - 2,
        plan.line_width == d.content_width,
        plan.items.deep_view() == spec_control_items(search_enabled, authenticated, *d),
{
    let lx = d.x_center - d.content_width / 2;
    let rx = d.x_center + d.content_width / 2;
    let y = d.y_center + d.content_height / 2 - 1;
    let mut items: Vec<CtrlItem> = Vec::new();
    if search_enabled {
        items.push(CtrlItem { text: "[esc] exit search".to_owned(), x: lx, y });
    } else {
        items.push(CtrlItem { text: "[m]enu".to_owned(), x: lx, y });
        items.push(CtrlItem { text: "[q]uit".to_owned(), x: rx - 6, y });
        items.push(CtrlItem { text: "[h]elp".to_owned(), x: rx - 13, y });
        let auth_label = if authenticated {
            "[l]ogout".to_owned()
        } else {
            " [l]ogin".to_owned()
        };
        items.push(CtrlItem { text: auth_label, x: rx - 22, y });
    }
    proof {
        assert(items.deep_view() =~= spec_control_items(search_enabled, authenticated, *d));
    }
    ControlsPlan { line_x: lx, line_y: d.y_center + d.content_height / 2 - 2, line_width: d.content_width, items }
}

/// The home screen's option labels, stacked two rows apart around the
/// centre.
pub open spec fn spec_home_items(d: Dimensions) -> Seq<CtrlView> {
    seq![
        CtrlView { text: "[f]avorites"@, x: d.x_center - 6, y: d.y_center - 3 },
        CtrlView { text: "[p]ages"@, x: d.x_center - 6, y: d.y_center - 1 },
        CtrlView { text: "[t]ables"@, x: d.x_center - 6, y: d.y_center + 1 },
        CtrlView { text: "[r]ecents"@, x: d.x_center - 6, y: d.y_center + 3 },
    ]
}

/// The home screen's options with their cells.
pub fn home_items(d: &Dimensions) -> (items: Vec<CtrlItem>)
    requires
        dims_wf(*d),
        d.x_center >= 6,
        d.y_center >= 3,
    ensures
        items.deep_view() == spec_home_items(*d),
{
    let x = d.x_center - 6;
    let mut items: Vec<CtrlItem> = Vec::new();
    items.push(CtrlItem { text: "[f]avorites".to_owned(), x, y: d.y_center - 3 });
    items.push(CtrlItem { text: "[p]ages".to_owned(), x, y: d.y_center - 1 });
    items.push(CtrlItem { text: "[t]ables".to_owned(), x, y: d.y_center + 1 });
    items.push(CtrlItem { text: "[r]ecents".to_owned(), x, y: d.y_center + 3 });
    proof {
        assert(items.deep_view() =~= spec_home_items(*d));
    }
    items
}

/// The search box's frame: left edge, top row, its half-width bar, and
/// the cell where the collapsed `[s]earch` label sits.
pub struct OverlayGeometry {
    pub x_left: u16,
    pub y_top: u16,
    pub box_width: u16,
    pub x_search: u16,
}

/// Where the search box stands for the given drawable area.
pub fn overlay_geometry(d: &Dimensions) -> (g: OverlayGeometry)
    requires
        dims_wf(*d),
    ensures
        g.x_left == d.x_center - d.content_width / 2,
        g.y_top == spec_y_search(*d),
        g.box_width == d.content_width / 2,
        g.x_search == d.x_center - d.content_width / 4 - (d.content_width / 2) / 2 + 1,
{
    let box_width = d.content_width / 2;
    OverlayGeometry {
        x_left: d.x_center - d.content_width / 2,
        y_top: crate::dims::y_search(d),
        box_width,
        x_search: d.x_center - d.content_width / 4 - box_width / 2 + 1,
    }
}

/// What the content area shows: nothing while the overlay covers it,
/// else the current section's screen.
pub enum ContentPlan {
    Hidden,
    Login,
    Auth,
    Home,
    Pages(PagesPanel),
    Tables(Vec<RowPlan>),
    Favorites(Vec<RowPlan>),
}

/// The content repaint for the current state: hidden under the overlay;
/// otherwise the current section's screen with its rows computed.
pub fn render_plan(state: &AppState) -> (plan: ContentPlan)
    requires
        state.wf(),
    ensures
        state@.search_active ==> plan is Hidden,
        !state@.search_active ==> (match state@.section {
            Section::Login => plan is Login,
            Section::Auth => plan is Auth,
            Section::Home => plan is Home,
            Section::Pages => plan matches ContentPlan::Pages(panel) && {
                &&& panel.page_rows.deep_view() == spec_page_rows(state@.pages, state@.page_pos)
                &&& state@.pages.len() > 0 ==> panel.item_rows.deep_view() == spec_item_rows(
                    state@.pages[state@.page_pos].1,
                    state@.drilled,
                    state@.item_pos,
                    state@.favorites,
                )
                &&& state@.pages.len() == 0 ==> panel.item_rows.deep_view()
                    == Seq::<RowView>::empty()
            },
            Section::Tables => plan matches ContentPlan::Tables(rows) && rows.deep_view()
                == spec_flat_rows(
                spec_flat_items(state@.pages),
                state@.table_pos,
                state@.favorites,
            ),
            Section::Favorites => plan matches ContentPlan::Favorites(rows) && rows.deep_view()
                == spec_flat_rows(state@.favorites, state@.favorite_pos, state@.favorites),
        }),
{
    if state.search.active {
        return ContentPlan::Hidden;
    }
    match state.section {
        Section::Login => ContentPlan::Login,
        Section::Auth => ContentPlan::Auth,
        Section::Home => ContentPlan::Home,
        Section::Pages => ContentPlan::Pages(pages_panel(state)),
        Section::Tables => {
            proof {
                assert(state.tables.deep_view().len() == state.tables@.len());
            }
            ContentPlan::Tables(flat_panel(&state.tables, state.table_pos, &state.favorites))
        },
        Section::Favorites => {
            proof {
                assert(state.favorites.deep_view().len() == state.favorites@.len());
            }
            ContentPlan::Favorites(
                flat_panel(&state.favorites, state.favorite_pos, &state.favorites),
            )
        },
    }
}

/// Drilling into a page with zero items never faults: the item index
/// lands at 0, the state stays well-formed, and the item panel it renders
/// is empty.
pub proof fn lemma_drill_empty_page(s: NavView)
    requires
        nav_wf(s),
        !s.search_active,
        s.section is Pages,
        !s.drilled,
        s.pages.len() > 0,
        s.pages[s.page_pos].1.len() == 0,
    ensures
        ({
            let stepped = spec_reduce(s, Event::Key(Key::Enter)).0;
            &&& stepped.item_pos == 0
            &&& stepped.page_pos == s.page_pos
            &&& nav_wf(stepped)
            &&& spec_item_rows(
                stepped.pages[stepped.page_pos].1,
                stepped.drilled,
                stepped.item_pos,
                stepped.favorites,
            ).len() == 0
        }),
{
}

} // verus!
