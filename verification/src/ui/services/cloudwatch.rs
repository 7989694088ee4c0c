//! The CloudWatch Logs screens: groups, a group's streams, and events (of a
//! stream, of a search, or of an Insights query), with the search and
//! Insights pop-ups.
use vstd::prelude::*;
use crate::app::Action;
use crate::aws::cloudwatch::{LogEvent, LogGroupInfo, LogStreamInfo};
use crate::input::{is_back, is_char, is_ctrl_char, is_down, is_up, KeyCode, KeyEvent};
use crate::nav::{
    half_page_down, jump_last, move_down, move_half_page_down, move_half_page_up, move_last, move_up,
    sat_sub_usize, step_down, step_up,
};
use crate::order::{
    arrange, arranged, entry_vals, lemma_positions_where, positions_where, sort_order, stable_order,
    EntryVal, KeyVal, SortEntry, SortKey,
};
use crate::text::{
    chars_of, clear_string, copy_opt_string, contains_chars, copy_string, lower_chars, lowercase, owned, pop_char,
    push_char, push_str, seq_contains, str_eq, trim_str, trimmed, truncate_str, truncated,
    truncation_is_safe, string_from_chars, sub_chars,
};
use crate::ui::services::{flip, SortDir};

verus! {

/// The calls to the search that one burst makes at most before keys are
/// read again.
pub const SEARCH_BURST_CALLS: usize = 3;

/// Which CloudWatch screen is shown.
#[derive(Debug, Clone, Copy, PartialEq, Eq, Structural)]
pub enum CwScreen {
    Groups,
    Streams,
    Events,
}

/// The column the group list is sorted by.
#[derive(Debug, Clone, Copy, PartialEq, Eq, Structural)]
pub enum GroupSortCol {
    Name,
    StoredBytes,
    Retention,
    Created,
}

/// The column the stream list is sorted by.
#[derive(Debug, Clone, Copy, PartialEq, Eq, Structural)]
pub enum StreamSortCol {
    Name,
    LastEvent,
    Created,
}

/// Where the shown events came from.
#[derive(Debug, Clone, Copy, PartialEq, Eq, Structural)]
pub enum EventsSource {
    Stream,
    Search,
    Insights,
}

/// The field of the search pop-up under the cursor.
#[derive(Debug, Clone, Copy, PartialEq, Eq, Structural)]
pub enum SearchField {
    Pattern,
    TimeRange,
}

/// The field of the Insights pop-up under the cursor.
#[derive(Debug, Clone, Copy, PartialEq, Eq, Structural)]
pub enum InsightsField {
    Query,
    TimeRange,
}

/// The next group sort column (`s`).
pub open spec fn next_group_col(c: GroupSortCol) -> GroupSortCol {
    match c {
        GroupSortCol::Name => GroupSortCol::StoredBytes,
        GroupSortCol::StoredBytes => GroupSortCol::Retention,
        GroupSortCol::Retention => GroupSortCol::Created,
        GroupSortCol::Created => GroupSortCol::Name,
    }
}

/// The previous group sort column (`S`).
pub open spec fn prev_group_col(c: GroupSortCol) -> GroupSortCol {
    match c {
        GroupSortCol::Name => GroupSortCol::Created,
        GroupSortCol::StoredBytes => GroupSortCol::Name,
        GroupSortCol::Retention => GroupSortCol::StoredBytes,
        GroupSortCol::Created => GroupSortCol::Retention,
    }
}

/// The next stream sort column (`s`).
pub open spec fn next_stream_col(c: StreamSortCol) -> StreamSortCol {
    match c {
        StreamSortCol::Name => StreamSortCol::LastEvent,
        StreamSortCol::LastEvent => StreamSortCol::Created,
        StreamSortCol::Created => StreamSortCol::Name,
    }
}

/// The previous stream sort column (`S`).
pub open spec fn prev_stream_col(c: StreamSortCol) -> StreamSortCol {
    match c {
        StreamSortCol::Name => StreamSortCol::Created,
        StreamSortCol::LastEvent => StreamSortCol::Name,
        StreamSortCol::Created => StreamSortCol::LastEvent,
    }
}

/// The state of the CloudWatch screens.
#[derive(Debug)]
pub struct CloudWatchView {
    pub screen: CwScreen,
    pub groups: Vec<LogGroupInfo>,
    pub group_selected: usize,
    pub group_list_offset: usize,
    pub group_sort_col: GroupSortCol,
    pub group_sort_dir: SortDir,
    /// The groups marked for an Insights query, each once, in marking order.
    pub selected_groups: Vec<String>,
    pub active_group: String,
    pub streams: Vec<LogStreamInfo>,
    pub stream_selected: usize,
    pub stream_list_offset: usize,
    pub stream_sort_col: StreamSortCol,
    pub stream_sort_dir: SortDir,
    pub active_stream: String,
    pub events: Vec<LogEvent>,
    pub next_token: Option<String>,
    pub event_scroll: usize,
    pub event_visible_rows: usize,
    pub loading: bool,
    pub error: Option<String>,
    pub filter: String,
    pub filtering: bool,
    pub pending_g: bool,
    pub refresh_flash: u8,
    pub search_popup_open: bool,
    pub search_pattern: String,
    pub search_hours: String,
    pub search_field: SearchField,
    pub search_editing: bool,
    pub search_hours_editing: bool,
    pub search_status: Option<String>,
    pub insights_popup_open: bool,
    pub insights_query: String,
    pub insights_hours: String,
    pub insights_field: InsightsField,
    pub insights_editing: bool,
    pub insights_hours_editing: bool,
    pub insights_status: Option<String>,
    pub insights_groups: Vec<String>,
    pub events_source: EventsSource,
    pub return_screen: CwScreen,
    pub search_pattern_display: String,
    pub search_continuing: bool,
}

/// Everything of the CloudWatch state but the group list.
pub ghost struct CwState {
    pub screen: CwScreen,
    pub group_selected: usize,
    pub group_list_offset: usize,
    pub group_sort_col: GroupSortCol,
    pub group_sort_dir: SortDir,
    pub selected_groups: Seq<Seq<char>>,
    pub active_group: Seq<char>,
    pub streams: Seq<LogStreamInfo>,
    pub stream_selected: usize,
    pub stream_list_offset: usize,
    pub stream_sort_col: StreamSortCol,
    pub stream_sort_dir: SortDir,
    pub active_stream: Seq<char>,
    pub events: Seq<LogEvent>,
    pub next_token: Option<String>,
    pub event_scroll: usize,
    pub event_visible_rows: usize,
    pub loading: bool,
    pub error: Option<String>,
    pub filter: Seq<char>,
    pub filtering: bool,
    pub pending_g: bool,
    pub refresh_flash: u8,
    pub search_popup_open: bool,
    pub search_pattern: Seq<char>,
    pub search_hours: Seq<char>,
    pub search_field: SearchField,
    pub search_editing: bool,
    pub search_hours_editing: bool,
    pub search_status: Option<Seq<char>>,
    pub insights_popup_open: bool,
    pub insights_query: Seq<char>,
    pub insights_hours: Seq<char>,
    pub insights_field: InsightsField,
    pub insights_editing: bool,
    pub insights_hours_editing: bool,
    pub insights_status: Option<Seq<char>>,
    pub insights_groups: Seq<Seq<char>>,
    pub events_source: EventsSource,
    pub return_screen: CwScreen,
    pub search_pattern_display: Seq<char>,
    pub search_continuing: bool,
}

/// The texts of a list of strings.
pub open spec fn name_texts(v: Seq<String>) -> Seq<Seq<char>> {
    v.map_values(|s: String| s@)
}

/// Pushing a string pushes its text.
pub proof fn lemma_name_texts_push(v: Seq<String>, s: String)
    ensures
        name_texts(v.push(s)) == name_texts(v).push(s@),
{
    assert(name_texts(v.push(s)) =~= name_texts(v).push(s@));
}

/// The text of an optional string.
pub open spec fn opt_text(o: Option<String>) -> Option<Seq<char>> {
    match o {
        Some(s) => Some(s@),
        None => None,
    }
}

/// `s` without any copy of `name`.
pub open spec fn without(s: Seq<Seq<char>>, name: Seq<char>) -> Seq<Seq<char>>
    decreases s.len(),
{
    if s.len() == 0 {
        s
    } else if s.last() == name {
        without(s.drop_last(), name)
    } else {
        without(s.drop_last(), name).push(s.last())
    }
}

/// Marks `name` when it is not marked, unmarks it when it is.
pub open spec fn toggled(s: Seq<Seq<char>>, name: Seq<char>) -> Seq<Seq<char>> {
    if s.contains(name) {
        without(s, name)
    } else {
        s.push(name)
    }
}

/// The names, each once: every name where it first occurs.
pub open spec fn distinct_names(s: Seq<Seq<char>>) -> Seq<Seq<char>>
    decreases s.len(),
{
    if s.len() == 0 {
        Seq::empty()
    } else {
        let d = distinct_names(s.drop_last());
        if d.contains(s.last()) {
            d
        } else {
            d.push(s.last())
        }
    }
}

/// `distinct_names` keeps the names of `s` and only them, each once.
pub proof fn lemma_distinct_names(s: Seq<Seq<char>>)
    ensures
        forall|x: Seq<char>| #[trigger] distinct_names(s).contains(x) <==> s.contains(x),
        forall|p: int, q: int|
            0 <= p < q < distinct_names(s).len() ==> #[trigger] distinct_names(s)[p] != #[trigger] distinct_names(s)[q],
        s.len() > 0 ==> distinct_names(s).len() > 0,
        distinct_names(s).len() <= s.len(),
    decreases s.len(),
{
    if s.len() > 0 {
        let t = s.drop_last();
        lemma_distinct_names(t);
        let d = distinct_names(t);
        assert forall|x: Seq<char>| #[trigger] distinct_names(s).contains(x) <==> s.contains(x) by {
            if s.contains(x) && x != s.last() {
                let i = choose|i: int| 0 <= i < s.len() && s[i] == x;
                assert(t[i] == x);
                assert(t.contains(x));
            }
            if t.contains(x) {
                let i = choose|i: int| 0 <= i < t.len() && t[i] == x;
                assert(s[i] == x);
            }
            if !d.contains(s.last()) && distinct_names(s).contains(x) && x != s.last() {
                let i = choose|i: int| 0 <= i < d.len() + 1 && d.push(s.last())[i] == x;
                assert(d[i] == x);
            }
            if !d.contains(s.last()) && d.contains(x) {
                let i = choose|i: int| 0 <= i < d.len() && d[i] == x;
                assert(d.push(s.last())[i] == x);
            }
            if !d.contains(s.last()) && x == s.last() {
                assert(d.push(s.last())[d.len() as int] == x);
            }
            if d.contains(s.last()) && x == s.last() {
                assert(t.contains(x));
            }
        }
    }
}

/// At most the first 50 names.
pub open spec fn first_fifty(s: Seq<Seq<char>>) -> Seq<Seq<char>> {
    if s.len() > 50 {
        s.take(50)
    } else {
        s
    }
}

/// Opens the search pop-up with an empty pattern on the pattern field,
/// remembering the screen to return to.
pub open spec fn open_search(m: CwState) -> CwState {
    CwState {
        search_popup_open: true,
        search_pattern: Seq::empty(),
        search_field: SearchField::Pattern,
        search_editing: false,
        search_hours_editing: false,
        search_status: None,
        return_screen: m.screen,
        ..m
    }
}

/// Opens the Insights pop-up on the query field (the query is kept),
/// remembering the screen to return to.
pub open spec fn open_insights(m: CwState) -> CwState {
    CwState {
        insights_popup_open: true,
        insights_field: InsightsField::Query,
        insights_editing: false,
        insights_hours_editing: false,
        insights_status: None,
        return_screen: m.screen,
        ..m
    }
}

/// Esc on a filter or a screen: a filter being typed is dropped (and that
/// is all); otherwise the filter is dropped and the screen goes back: events
/// of a search or a query return to the screen they were opened from,
/// events of a stream to the streams, streams to the groups. The flag tells
/// whether anything was left.
pub open spec fn back_step(m: CwState) -> (CwState, bool) {
    if m.filtering {
        (CwState { filtering: false, filter: Seq::empty(), ..m }, true)
    } else {
        let m1 = CwState { filtering: false, filter: Seq::empty(), ..m };
        match m.screen {
            CwScreen::Events => if m.events_source != EventsSource::Stream {
                (
                    CwState {
                        search_continuing: false,
                        screen: m.return_screen,
                        events: Seq::empty(),
                        events_source: EventsSource::Stream,
                        loading: false,
                        ..m1
                    },
                    true,
                )
            } else {
                (
                    CwState {
                        search_continuing: false,
                        screen: CwScreen::Streams,
                        events: Seq::empty(),
                        loading: false,
                        ..m1
                    },
                    true,
                )
            },
            CwScreen::Streams => (
                CwState { screen: CwScreen::Groups, streams: Seq::empty(), loading: false, ..m1 },
                true,
            ),
            CwScreen::Groups => (m1, false),
        }
    }
}

/// A key typed into the filter: editing it puts the cursor (or the event
/// scroll) of the current screen back at the top.
pub open spec fn filter_step(m: CwState, k: KeyEvent) -> CwState {
    let edits = k.code is Backspace || k.code is Char;
    CwState {
        filtering: if k.code == KeyCode::Esc || k.code == KeyCode::Enter { false } else { m.filtering },
        filter: filter_text(m.filter, k),
        group_selected: if edits && m.screen == CwScreen::Groups { 0 } else { m.group_selected },
        stream_selected: if edits && m.screen == CwScreen::Streams { 0 } else { m.stream_selected },
        event_scroll: if edits && m.screen == CwScreen::Events { 0 } else { m.event_scroll },
        ..m
    }
}

/// The filter text after a key typed into it: Esc clears it, Backspace
/// drops its last character, a character is appended.
pub open spec fn filter_text(f: Seq<char>, k: KeyEvent) -> Seq<char> {
    match k.code {
        KeyCode::Esc => Seq::empty(),
        KeyCode::Backspace => if f.len() > 0 {
            f.drop_last()
        } else {
            f
        },
        KeyCode::Char(c) => f.push(c),
        _ => f,
    }
}

/// The largest scroll offset of the events screen for `event_count` shown
/// events.
pub open spec fn max_scroll(m: CwState, event_count: usize) -> usize {
    sat_sub_usize(event_count, m.event_visible_rows as int)
}

/// After scrolling the events: when no page is loading and a further page
/// exists, and the view is within 10 rows of the end, the next page is
/// asked for (of the search, or of the stream).
pub open spec fn auto_load(m: CwState, event_count: usize) -> (CwState, Option<Action>) {
    (CwState { loading: m.loading || wants_page(m, event_count), ..m }, Some(page_action(m, event_count)))
}

/// Whether the next page of events is wanted (see `auto_load`).
pub open spec fn wants_page(m: CwState, event_count: usize) -> bool {
    !m.loading && m.next_token is Some && m.event_scroll + m.event_visible_rows + 10 >= event_count
}

/// The action after scrolling towards the end (see `auto_load`).
pub open spec fn page_action(m: CwState, event_count: usize) -> Action {
    if !wants_page(m, event_count) {
        Action::NoOp
    } else if m.events_source == EventsSource::Search {
        Action::CwSearchNextPage
    } else {
        Action::CwNextPage
    }
}

/// The event scroll after a scrolling key, with `max` the largest offset:
/// one row down or up, 20 rows down or up (Ctrl+d, Ctrl+u), the top (`gg`)
/// or the end (`G`).
pub open spec fn scrolled(scroll: usize, pending_g: bool, max: usize, k: KeyEvent) -> usize {
    if is_down(k) {
        if scroll < max {
            (scroll + 1) as usize
        } else {
            scroll
        }
    } else if is_up(k) {
        sat_sub_usize(scroll, 1)
    } else if is_ctrl_char(k, 'd') {
        if scroll + 20 < max {
            (scroll + 20) as usize
        } else {
            max
        }
    } else if is_ctrl_char(k, 'u') {
        sat_sub_usize(scroll, 20)
    } else if is_char(k, 'g') && pending_g {
        0
    } else if is_char(k, 'G') {
        max
    } else {
        scroll
    }
}

/// A key that moves the events view towards their end (and may ask for the
/// next page).
pub open spec fn scrolls_to_end(k: KeyEvent) -> bool {
    is_down(k) || is_ctrl_char(k, 'd') || (is_char(k, 'G') && !is_up(k))
}

/// The events view moved by a scrolling key: a first `g` waits for a
/// second, every other key ends that wait.
pub open spec fn scroll_moved(m: CwState, event_count: usize, k: KeyEvent) -> CwState {
    CwState {
        pending_g: is_char(k, 'g') && !m.pending_g,
        event_scroll: scrolled(m.event_scroll, m.pending_g, max_scroll(m, event_count), k),
        ..m
    }
}

/// A scrolling key on the events screen; moving towards the end may load
/// more.
pub open spec fn events_scroll_step(m: CwState, event_count: usize, k: KeyEvent) -> (CwState, Option<Action>) {
    if scrolls_to_end(k) {
        auto_load(scroll_moved(m, event_count, k), event_count)
    } else {
        (scroll_moved(m, event_count, k), Some(Action::NoOp))
    }
}

/// `/` starts typing a filter.
pub open spec fn start_filter(m: CwState) -> CwState {
    CwState { filtering: true, filter: Seq::empty(), ..m }
}

/// `r` on the events screen reloads them from the start.
pub open spec fn events_refresh(m: CwState) -> CwState {
    CwState { events: Seq::empty(), next_token: None, event_scroll: 0, loading: true, error: None, ..m }
}

/// A key on the events screen (no pop-up, no filter being typed).
pub open spec fn events_step(m: CwState, event_count: usize, k: KeyEvent) -> (CwState, Option<Action>) {
    if is_back(k) {
        (back_step(CwState { pending_g: false, ..m }).0, Some(Action::NoOp))
    } else if is_char(k, '/') {
        (start_filter(m), Some(Action::NoOp))
    } else if is_char(k, 'r') {
        (events_refresh(m), Some(Action::Refresh))
    } else {
        events_scroll_step(m, event_count, k)
    }
}

/// The cursor of the list screen shown.
pub open spec fn cursor(m: CwState) -> usize {
    if m.screen == CwScreen::Groups {
        m.group_selected
    } else {
        m.stream_selected
    }
}

/// The list screen shown with its cursor at `v`.
pub open spec fn with_cursor(m: CwState, v: usize) -> CwState {
    CwState {
        group_selected: if m.screen == CwScreen::Groups { v } else { m.group_selected },
        stream_selected: if m.screen == CwScreen::Groups { m.stream_selected } else { v },
        ..m
    }
}

/// A cursor key on a list: `j`/`k` (or the arrows) one row, `gg` the
/// first row, `G` the last, Ctrl+d and Ctrl+u 20 rows.
pub open spec fn is_list_nav(k: KeyEvent) -> bool {
    is_down(k) || is_up(k) || is_char(k, 'g') || is_char(k, 'G') || is_ctrl_char(k, 'd') || is_ctrl_char(k, 'u')
}

/// The cursor after a cursor key on a list of `count` rows.
pub open spec fn moved_cursor(sel: usize, pending_g: bool, count: usize, k: KeyEvent) -> usize {
    if is_down(k) {
        step_down(sel, count)
    } else if is_up(k) {
        step_up(sel)
    } else if is_char(k, 'g') {
        if pending_g {
            0
        } else {
            sel
        }
    } else if is_char(k, 'G') {
        jump_last(sel, count)
    } else if is_ctrl_char(k, 'd') {
        half_page_down(sel, count)
    } else {
        sat_sub_usize(sel, 20)
    }
}

/// A cursor key on a list of `count` rows: a first `g` waits for a second,
/// the other keys end that wait.
pub open spec fn list_nav_step(m: CwState, count: usize, k: KeyEvent) -> CwState {
    with_cursor(
        CwState { pending_g: is_char(k, 'g') && !m.pending_g, ..m },
        moved_cursor(cursor(m), m.pending_g, count, k),
    )
}

/// The group sort column after `s` (next) or `S` (previous).
pub open spec fn group_col_after(c: GroupSortCol, k: KeyEvent) -> GroupSortCol {
    if is_char(k, 's') {
        next_group_col(c)
    } else if is_char(k, 'S') {
        prev_group_col(c)
    } else {
        c
    }
}

/// The stream sort column after `s` (next) or `S` (previous).
pub open spec fn stream_col_after(c: StreamSortCol, k: KeyEvent) -> StreamSortCol {
    if is_char(k, 's') {
        next_stream_col(c)
    } else if is_char(k, 'S') {
        prev_stream_col(c)
    } else {
        c
    }
}

/// The sort direction after `x` (the other one).
pub open spec fn dir_after(d: SortDir, k: KeyEvent) -> SortDir {
    if is_char(k, 'x') {
        flip(d)
    } else {
        d
    }
}

/// The group sort after `s`, `S` or `x` on the group list: the next or
/// previous column, or the other direction, with the cursor on the first
/// row.
pub open spec fn group_sort_step(m: CwState, k: KeyEvent) -> CwState {
    CwState {
        group_sort_col: group_col_after(m.group_sort_col, k),
        group_sort_dir: dir_after(m.group_sort_dir, k),
        group_selected: 0,
        ..m
    }
}

/// The stream sort after `s`, `S` or `x` on the stream list.
pub open spec fn stream_sort_step(m: CwState, k: KeyEvent) -> CwState {
    CwState {
        stream_sort_col: stream_col_after(m.stream_sort_col, k),
        stream_sort_dir: dir_after(m.stream_sort_dir, k),
        stream_selected: 0,
        ..m
    }
}

/// `s`, `S` or `x` on a list: the sort of the list shown changes.
pub open spec fn list_sort_step(m: CwState, k: KeyEvent) -> CwState {
    if m.screen == CwScreen::Groups {
        group_sort_step(m, k)
    } else {
        stream_sort_step(m, k)
    }
}

/// The group under the cursor on the group list, else the active group.
pub open spec fn picked_group(m: CwState, names: Seq<Seq<char>>) -> Seq<char> {
    if m.screen == CwScreen::Groups && m.group_selected < names.len() {
        names[m.group_selected as int]
    } else {
        m.active_group
    }
}

/// `f` on a list: on the groups the group under the cursor becomes the
/// active one; with an active group the search pop-up opens.
pub open spec fn list_search_step(m: CwState, names: Seq<Seq<char>>) -> CwState {
    let m1 = CwState { active_group: picked_group(m, names), ..m };
    if m1.active_group.len() > 0 {
        open_search(m1)
    } else {
        m1
    }
}

/// Space on the group list marks or unmarks the group under the cursor for
/// an Insights query and moves the cursor down.
pub open spec fn list_mark_step(m: CwState, names: Seq<Seq<char>>) -> CwState {
    if m.screen == CwScreen::Groups && m.group_selected < names.len() {
        CwState {
            selected_groups: toggled(m.selected_groups, names[m.group_selected as int]),
            group_selected: step_down(m.group_selected, names.len() as usize),
            ..m
        }
    } else {
        m
    }
}

/// The groups an Insights query from a list is for: on the groups the
/// marked ones (each once), or else the shown ones (at most 50 either way);
/// on the streams the active group.
pub open spec fn chosen_groups(m: CwState, names: Seq<Seq<char>>) -> Seq<Seq<char>> {
    if m.screen != CwScreen::Groups {
        if m.active_group.len() > 0 {
            seq![m.active_group]
        } else {
            Seq::empty()
        }
    } else if m.selected_groups.len() > 0 {
        first_fifty(distinct_names(m.selected_groups))
    } else {
        first_fifty(names)
    }
}

/// `i` on a list opens the Insights pop-up for the chosen groups, if any.
pub open spec fn list_insights_step(m: CwState, names: Seq<Seq<char>>) -> CwState {
    if chosen_groups(m, names).len() > 0 {
        open_insights(CwState { insights_groups: chosen_groups(m, names), ..m })
    } else {
        m
    }
}

/// Esc or `h` on a list: marked groups are unmarked first; else back (the
/// action says whether the screen changed).
pub open spec fn list_back_step(m: CwState) -> (CwState, Option<Action>) {
    if m.selected_groups.len() > 0 && m.screen == CwScreen::Groups {
        (CwState { selected_groups: Seq::empty(), ..m }, Some(Action::NoOp))
    } else {
        let (m2, went) = back_step(m);
        (m2, if went { Some(Action::ServiceBack) } else { None })
    }
}

/// A key on a list that needs no names: `r` reloads, `/` starts a filter,
/// Enter opens the row, Esc or `h` goes back, and any other key ends a
/// pending `g`.
pub open spec fn list_misc_step(m: CwState, k: KeyEvent) -> (CwState, Option<Action>) {
    if is_char(k, 'r') {
        (CwState { loading: true, error: None, ..m }, Some(Action::Refresh))
    } else if is_char(k, '/') {
        (start_filter(m), Some(Action::NoOp))
    } else if k.code == KeyCode::Enter {
        (m, Some(Action::ServiceEnter))
    } else if is_back(k) {
        list_back_step(m)
    } else {
        (CwState { pending_g: false, ..m }, Some(Action::NoOp))
    }
}

/// `f`, Space or `i` on a list: the keys that act on the shown groups.
pub open spec fn uses_names(k: KeyEvent) -> bool {
    is_char(k, 'f') || is_char(k, ' ') || is_char(k, 'i')
}

/// `f`, Space or `i` on a list, given the names of the shown groups.
pub open spec fn list_names_step(m: CwState, names: Seq<Seq<char>>, k: KeyEvent) -> CwState {
    if is_char(k, 'f') {
        list_search_step(m, names)
    } else if is_char(k, ' ') {
        list_mark_step(m, names)
    } else {
        list_insights_step(m, names)
    }
}

/// A key on the group or stream list (no pop-up, no filter being typed),
/// given the names of the shown groups in order and the number of shown
/// streams.
pub open spec fn list_step(m: CwState, names: Seq<Seq<char>>, stream_count: usize, k: KeyEvent) -> (CwState, Option<Action>) {
    let count: usize = if m.screen == CwScreen::Groups {
        names.len() as usize
    } else {
        stream_count
    };
    if is_list_nav(k) {
        (list_nav_step(m, count, k), Some(Action::NoOp))
    } else if is_char(k, 's') || is_char(k, 'S') || is_char(k, 'x') {
        (list_sort_step(m, k), Some(Action::NoOp))
    } else if uses_names(k) {
        (list_names_step(m, names, k), Some(Action::NoOp))
    } else {
        list_misc_step(m, k)
    }
}

/// A character accepted in an hours field: a digit or `.`.
pub open spec fn hours_char(c: char) -> bool {
    ('0' <= c && c <= '9') || c == '.'
}

/// A text after a key typed into it: Backspace drops the last character,
/// a character is appended, other keys leave it.
pub open spec fn typed_text(t: Seq<char>, k: KeyEvent) -> Seq<char> {
    match k.code {
        KeyCode::Backspace => if t.len() > 0 {
            t.drop_last()
        } else {
            t
        },
        KeyCode::Char(c) => t.push(c),
        _ => t,
    }
}

/// An hours text after a key typed into it: as `typed_text`, but only digits
/// and `.` go in.
pub open spec fn typed_hours(t: Seq<char>, k: KeyEvent) -> Seq<char> {
    match k.code {
        KeyCode::Char(c) => if hours_char(c) {
            t.push(c)
        } else {
            t
        },
        _ => typed_text(t, k),
    }
}

/// Esc or Enter.
pub open spec fn ends_typing(k: KeyEvent) -> bool {
    k.code == KeyCode::Esc || k.code == KeyCode::Enter
}

/// A key while the search pattern is being typed: Esc or Enter stop
/// typing, other keys edit the pattern.
pub open spec fn search_pattern_step(m: CwState, k: KeyEvent) -> CwState {
    CwState {
        search_editing: m.search_editing && !ends_typing(k),
        search_pattern: typed_text(m.search_pattern, k),
        ..m
    }
}

/// A key while the search time range (hours) is being typed.
pub open spec fn search_hours_step(m: CwState, k: KeyEvent) -> CwState {
    CwState {
        search_hours_editing: m.search_hours_editing && !ends_typing(k),
        search_hours: typed_hours(m.search_hours, k),
        ..m
    }
}

/// A key in the search pop-up while nothing is being typed: the arrows
/// switch fields, `i` or Enter starts typing the field, `r` runs a search
/// when there is a pattern, Esc closes the pop-up.
pub open spec fn search_menu_step(m: CwState, k: KeyEvent) -> (CwState, Option<Action>) {
    let switches = is_down(k) || is_up(k);
    let starts = !switches && (is_char(k, 'i') || k.code == KeyCode::Enter);
    let runs = !switches && !starts && is_char(k, 'r') && m.search_pattern.len() > 0;
    let closes = !switches && !starts && !is_char(k, 'r') && k.code == KeyCode::Esc;
    (
        CwState {
            search_field: if switches {
                if m.search_field == SearchField::Pattern {
                    SearchField::TimeRange
                } else {
                    SearchField::Pattern
                }
            } else {
                m.search_field
            },
            search_editing: m.search_editing || (starts && m.search_field == SearchField::Pattern),
            search_hours_editing: m.search_hours_editing || (starts && m.search_field == SearchField::TimeRange),
            loading: m.loading || runs,
            search_popup_open: m.search_popup_open && !closes,
            ..m
        },
        Some(if runs { Action::CwRunSearch } else { Action::NoOp }),
    )
}

/// A key in the search pop-up.
pub open spec fn search_step(m: CwState, k: KeyEvent) -> (CwState, Option<Action>) {
    if m.search_editing {
        (search_pattern_step(m, k), Some(Action::NoOp))
    } else if m.search_hours_editing {
        (search_hours_step(m, k), Some(Action::NoOp))
    } else {
        search_menu_step(m, k)
    }
}

/// The query after a key typed into it: Enter starts a new line, else as
/// `typed_text`.
pub open spec fn typed_query(t: Seq<char>, k: KeyEvent) -> Seq<char> {
    if k.code == KeyCode::Enter {
        t.push('\n')
    } else {
        typed_text(t, k)
    }
}

/// A key while the Insights query is being typed: Esc stops typing, other
/// keys edit the query.
pub open spec fn insights_query_step(m: CwState, k: KeyEvent) -> CwState {
    CwState {
        insights_editing: m.insights_editing && k.code != KeyCode::Esc,
        insights_query: if k.code == KeyCode::Esc {
            m.insights_query
        } else {
            typed_query(m.insights_query, k)
        },
        ..m
    }
}

/// A key while the Insights time range (hours) is being typed.
pub open spec fn insights_hours_step(m: CwState, k: KeyEvent) -> CwState {
    CwState {
        insights_hours_editing: m.insights_hours_editing && !ends_typing(k),
        insights_hours: typed_hours(m.insights_hours, k),
        ..m
    }
}

/// A key in the Insights pop-up while nothing is being typed: the arrows
/// switch fields, `i` or Enter starts typing the field, `r` runs a query
/// that is not blank (`Starting...`), Esc closes the pop-up.
pub open spec fn insights_menu_step(m: CwState, k: KeyEvent) -> (CwState, Option<Action>) {
    let switches = is_down(k) || is_up(k);
    let starts = !switches && (is_char(k, 'i') || k.code == KeyCode::Enter);
    let runs = !switches && !starts && is_char(k, 'r') && trimmed(m.insights_query).len() > 0;
    let closes = !switches && !starts && !is_char(k, 'r') && k.code == KeyCode::Esc;
    (
        CwState {
            insights_field: if switches {
                if m.insights_field == InsightsField::Query {
                    InsightsField::TimeRange
                } else {
                    InsightsField::Query
                }
            } else {
                m.insights_field
            },
            insights_editing: m.insights_editing || (starts && m.insights_field == InsightsField::Query),
            insights_hours_editing: m.insights_hours_editing || (starts && m.insights_field == InsightsField::TimeRange),
            loading: m.loading || runs,
            insights_status: if runs { Some("Starting..."@) } else { m.insights_status },
            insights_popup_open: m.insights_popup_open && !closes,
            ..m
        },
        Some(if runs { Action::CwRunInsights } else { Action::NoOp }),
    )
}

/// A key in the Insights pop-up.
pub open spec fn insights_step(m: CwState, k: KeyEvent) -> (CwState, Option<Action>) {
    if m.insights_editing {
        (insights_query_step(m, k), Some(Action::NoOp))
    } else if m.insights_hours_editing {
        (insights_hours_step(m, k), Some(Action::NoOp))
    } else {
        insights_menu_step(m, k)
    }
}

/// What a key does to the CloudWatch screens: the pop-ups take keys first,
/// then the events screen, then the filter being typed, then the lists.
pub open spec fn key_step(
    m: CwState,
    names: Seq<Seq<char>>,
    stream_count: usize,
    event_count: usize,
    k: KeyEvent,
) -> (CwState, Option<Action>) {
    if m.search_popup_open {
        search_step(m, k)
    } else if m.insights_popup_open {
        insights_step(m, k)
    } else if m.screen == CwScreen::Events {
        if m.filtering {
            (filter_step(m, k), Some(Action::NoOp))
        } else {
            events_step(m, event_count, k)
        }
    } else if m.filtering {
        (filter_step(m, k), Some(Action::NoOp))
    } else {
        list_step(m, names, stream_count, k)
    }
}

/// The default Insights query.
pub open spec fn default_query() -> Seq<char> {
    "fields @timestamp, @message\n| sort @timestamp desc\n| limit 200"@
}

/// The state the screens start in: the group list, loading; streams by
/// latest event first; both time ranges 3 hours.
pub open spec fn is_initial(m: CwState) -> bool {
    &&& m.screen == CwScreen::Groups
    &&& m.group_selected == 0 && m.group_list_offset == 0
    &&& m.group_sort_col == GroupSortCol::Name && m.group_sort_dir == SortDir::Asc
    &&& m.selected_groups.len() == 0 && m.active_group.len() == 0 && m.streams.len() == 0
    &&& m.stream_selected == 0 && m.stream_list_offset == 0
    &&& m.stream_sort_col == StreamSortCol::LastEvent && m.stream_sort_dir == SortDir::Desc
    &&& m.active_stream.len() == 0 && m.events.len() == 0 && m.next_token is None
    &&& m.event_scroll == 0 && m.event_visible_rows == 40
    &&& m.loading && m.error is None && m.filter.len() == 0 && !m.filtering && !m.pending_g
    &&& m.refresh_flash == 0
    &&& !m.search_popup_open && m.search_pattern.len() == 0 && m.search_hours == "3"@
    &&& m.search_field == SearchField::Pattern && !m.search_editing && !m.search_hours_editing
    &&& m.search_status is None
    &&& !m.insights_popup_open && m.insights_query == default_query() && m.insights_hours == "3"@
    &&& m.insights_field == InsightsField::Query && !m.insights_editing && !m.insights_hours_editing
    &&& m.insights_status is None && m.insights_groups.len() == 0
    &&& m.events_source == EventsSource::Stream && m.return_screen == CwScreen::Groups
    &&& m.search_pattern_display.len() == 0 && !m.search_continuing
}

impl Default for CloudWatchView {
    fn default() -> (v: Self)
        ensures
            is_initial(v.state()),
            v.groups@.len() == 0,
    {
        let v = CloudWatchView {
            screen: CwScreen::Groups,
            groups: Vec::new(),
            group_selected: 0,
            group_list_offset: 0,
            group_sort_col: GroupSortCol::Name,
            group_sort_dir: SortDir::Asc,
            selected_groups: Vec::new(),
            active_group: String::new(),
            streams: Vec::new(),
            stream_selected: 0,
            stream_list_offset: 0,
            stream_sort_col: StreamSortCol::LastEvent,
            stream_sort_dir: SortDir::Desc,
            active_stream: String::new(),
            events: Vec::new(),
            next_token: None,
            event_scroll: 0,
            event_visible_rows: 40,
            loading: true,
            error: None,
            filter: String::new(),
            filtering: false,
            pending_g: false,
            refresh_flash: 0,
            search_popup_open: false,
            search_pattern: String::new(),
            search_hours: owned("3"),
            search_field: SearchField::Pattern,
            search_editing: false,
            search_hours_editing: false,
            search_status: None,
            insights_popup_open: false,
            insights_query: owned("fields @timestamp, @message\n| sort @timestamp desc\n| limit 200"),
            insights_hours: owned("3"),
            insights_field: InsightsField::Query,
            insights_editing: false,
            insights_hours_editing: false,
            insights_status: None,
            insights_groups: Vec::new(),
            events_source: EventsSource::Stream,
            return_screen: CwScreen::Groups,
            search_pattern_display: String::new(),
            search_continuing: false,
        };
        v
    }
}

/// Whether `c` may go into an hours field.
fn is_hours_char(c: char) -> (r: bool)
    ensures
        r == hours_char(c),
{
    ('0' <= c && c <= '9') || c == '.'
}

/// The event scroll after a scrolling key (see `scrolled`).
fn scroll_after(scroll: usize, pending_g: bool, max: usize, key: &KeyEvent) -> (r: usize)
    ensures
        r == scrolled(scroll, pending_g, max, *key),
{
    if key.down() {
        if scroll < max {
            scroll + 1
        } else {
            scroll
        }
    } else if key.up() {
        if scroll >= 1 {
            scroll - 1
        } else {
            0
        }
    } else if key.ctrl_char_is('d') {
        if max > 20 && scroll < max - 20 {
            scroll + 20
        } else {
            max
        }
    } else if key.ctrl_char_is('u') {
        if scroll >= 20 {
            scroll - 20
        } else {
            0
        }
    } else if key.char_is('g') && pending_g {
        0
    } else if key.char_is('G') {
        max
    } else {
        scroll
    }
}

/// The cursor after a cursor key (see `moved_cursor`).
fn cursor_after(sel: usize, pending_g: bool, count: usize, key: &KeyEvent) -> (r: usize)
    ensures
        r == moved_cursor(sel, pending_g, count, *key),
{
    if key.down() {
        move_down(sel, count)
    } else if key.up() {
        move_up(sel)
    } else if key.char_is('g') {
        if pending_g {
            0
        } else {
            sel
        }
    } else if key.char_is('G') {
        move_last(sel, count)
    } else if key.ctrl_char_is('d') {
        move_half_page_down(sel, count)
    } else {
        move_half_page_up(sel)
    }
}

/// Whether the key moves a list cursor (see `is_list_nav`).
fn key_is_list_nav(key: &KeyEvent) -> (r: bool)
    ensures
        r == is_list_nav(*key),
{
    key.down() || key.up() || key.char_is('g') || key.char_is('G') || key.ctrl_char_is('d') || key.ctrl_char_is('u')
}

fn next_group(c: GroupSortCol) -> (r: GroupSortCol)
    ensures
        r == next_group_col(c),
{
    match c {
        GroupSortCol::Name => GroupSortCol::StoredBytes,
        GroupSortCol::StoredBytes => GroupSortCol::Retention,
        GroupSortCol::Retention => GroupSortCol::Created,
        GroupSortCol::Created => GroupSortCol::Name,
    }
}

fn prev_group(c: GroupSortCol) -> (r: GroupSortCol)
    ensures
        r == prev_group_col(c),
{
    match c {
        GroupSortCol::Name => GroupSortCol::Created,
        GroupSortCol::StoredBytes => GroupSortCol::Name,
        GroupSortCol::Retention => GroupSortCol::StoredBytes,
        GroupSortCol::Created => GroupSortCol::Retention,
    }
}

fn next_stream(c: StreamSortCol) -> (r: StreamSortCol)
    ensures
        r == next_stream_col(c),
{
    match c {
        StreamSortCol::Name => StreamSortCol::LastEvent,
        StreamSortCol::LastEvent => StreamSortCol::Created,
        StreamSortCol::Created => StreamSortCol::Name,
    }
}

fn prev_stream(c: StreamSortCol) -> (r: StreamSortCol)
    ensures
        r == prev_stream_col(c),
{
    match c {
        StreamSortCol::Name => StreamSortCol::Created,
        StreamSortCol::LastEvent => StreamSortCol::Name,
        StreamSortCol::Created => StreamSortCol::LastEvent,
    }
}

fn group_col_key(c: GroupSortCol, key: &KeyEvent) -> (r: GroupSortCol)
    ensures
        r == group_col_after(c, *key),
{
    if key.char_is('s') {
        next_group(c)
    } else if key.char_is('S') {
        prev_group(c)
    } else {
        c
    }
}

fn stream_col_key(c: StreamSortCol, key: &KeyEvent) -> (r: StreamSortCol)
    ensures
        r == stream_col_after(c, *key),
{
    if key.char_is('s') {
        next_stream(c)
    } else if key.char_is('S') {
        prev_stream(c)
    } else {
        c
    }
}

fn dir_key(d: SortDir, key: &KeyEvent) -> (r: SortDir)
    ensures
        r == dir_after(d, *key),
{
    if key.char_is('x') {
        d.toggle()
    } else {
        d
    }
}

/// Copies of the names.
fn copy_names(v: &Vec<String>) -> (r: Vec<String>)
    ensures
        name_texts(r@) == name_texts(v@),
{
    let n = v.len();
    let mut r: Vec<String> = Vec::new();
    let mut i: usize = 0;
    while i < n
        invariant
            n == v@.len(),
            0 <= i <= n,
            name_texts(r@) == name_texts(v@).take(i as int),
        decreases n - i,
    {
        let ghost old_r = r@;
        let c = copy_string(&v[i]);
        r.push(c);
        proof {
            lemma_name_texts_push(old_r, c);
            assert(name_texts(r@) =~= name_texts(v@).take(i + 1));
        }
        i = i + 1;
    }
    proof {
        assert(name_texts(v@).take(n as int) =~= name_texts(v@));
    }
    r
}

/// The names with `name` marked when it was not, unmarked when it was.
fn names_toggled(v: &Vec<String>, name: &str) -> (r: Vec<String>)
    ensures
        name_texts(r@) == toggled(name_texts(v@), name@),
{
    if names_contain(v, name) {
        names_without(v, name)
    } else {
        let mut r = copy_names(v);
        let ghost old_r = r@;
        let c = owned(name);
        r.push(c);
        proof {
            lemma_name_texts_push(old_r, c);
        }
        r
    }
}

/// Whether a list of names holds `name`.
fn names_contain(v: &Vec<String>, name: &str) -> (r: bool)
    ensures
        r == name_texts(v@).contains(name@),
{
    let n = v.len();
    let mut i: usize = 0;
    while i < n
        invariant
            n == v@.len(),
            0 <= i <= n,
            forall|t: int| 0 <= t < i ==> v@[t]@ != name@,
        decreases n - i,
    {
        if str_eq(v[i].as_str(), name) {
            proof {
                assert(name_texts(v@)[i as int] == name@);
            }
            return true;
        }
        i = i + 1;
    }
    proof {
        if name_texts(v@).contains(name@) {
            let t = choose|t: int| 0 <= t < name_texts(v@).len() && name_texts(v@)[t] == name@;
            assert(v@[t]@ == name@);
        }
    }
    false
}

/// A copy of the names without `name`.
fn names_without(v: &Vec<String>, name: &str) -> (r: Vec<String>)
    ensures
        name_texts(r@) == without(name_texts(v@), name@),
{
    let n = v.len();
    let mut r: Vec<String> = Vec::new();
    let mut i: usize = 0;
    while i < n
        invariant
            n == v@.len(),
            0 <= i <= n,
            name_texts(r@) == without(name_texts(v@).take(i as int), name@),
        decreases n - i,
    {
        proof {
            assert(name_texts(v@).take(i + 1).drop_last() =~= name_texts(v@).take(i as int));
        }
        if !str_eq(v[i].as_str(), name) {
            let ghost old_r = r@;
            let c = copy_string(&v[i]);
            r.push(c);
            proof {
                lemma_name_texts_push(old_r, c);
                assert(name_texts(r@) =~= without(name_texts(v@).take(i as int), name@).push(v@[i as int]@));
            }
        }
        i = i + 1;
    }
    proof {
        assert(name_texts(v@).take(n as int) =~= name_texts(v@));
    }
    r
}

/// Copies of the names, each once (see `distinct_names`).
fn distinct_copy(v: &Vec<String>) -> (r: Vec<String>)
    ensures
        name_texts(r@) == distinct_names(name_texts(v@)),
{
    let n = v.len();
    let mut r: Vec<String> = Vec::new();
    let mut i: usize = 0;
    while i < n
        invariant
            n == v@.len(),
            0 <= i <= n,
            name_texts(r@) == distinct_names(name_texts(v@).take(i as int)),
        decreases n - i,
    {
        proof {
            assert(name_texts(v@).take(i + 1).drop_last() =~= name_texts(v@).take(i as int));
            assert(name_texts(v@).take(i + 1).last() == v@[i as int]@);
        }
        if !names_contain(&r, v[i].as_str()) {
            let ghost old_r = r@;
            let c = copy_string(&v[i]);
            r.push(c);
            proof {
                lemma_name_texts_push(old_r, c);
            }
        }
        i = i + 1;
    }
    proof {
        assert(name_texts(v@).take(n as int) =~= name_texts(v@));
    }
    r
}

/// Copies of at most the first 50 names.
fn first_fifty_names(v: &Vec<String>) -> (r: Vec<String>)
    ensures
        name_texts(r@) == first_fifty(name_texts(v@)),
{
    let n = if v.len() > 50 {
        50
    } else {
        v.len()
    };
    let mut r: Vec<String> = Vec::new();
    let mut i: usize = 0;
    while i < n
        invariant
            n <= v@.len(),
            n == (if v@.len() > 50 { 50 } else { v@.len() }),
            0 <= i <= n,
            name_texts(r@) == name_texts(v@).take(i as int),
        decreases n - i,
    {
        let ghost old_r = r@;
        let c = copy_string(&v[i]);
        r.push(c);
        proof {
            lemma_name_texts_push(old_r, c);
            assert(name_texts(r@) =~= name_texts(v@).take(i + 1));
        }
        i = i + 1;
    }
    proof {
        if v@.len() <= 50 {
            assert(name_texts(v@).take(n as int) =~= name_texts(v@));
        }
    }
    r
}

impl CloudWatchView {
    /// The state but the group list.
    pub open spec fn state(self) -> CwState {
        CwState {
            screen: self.screen,
            group_selected: self.group_selected,
            group_list_offset: self.group_list_offset,
            group_sort_col: self.group_sort_col,
            group_sort_dir: self.group_sort_dir,
            selected_groups: name_texts(self.selected_groups@),
            active_group: self.active_group@,
            streams: self.streams@,
            stream_selected: self.stream_selected,
            stream_list_offset: self.stream_list_offset,
            stream_sort_col: self.stream_sort_col,
            stream_sort_dir: self.stream_sort_dir,
            active_stream: self.active_stream@,
            events: self.events@,
            next_token: self.next_token,
            event_scroll: self.event_scroll,
            event_visible_rows: self.event_visible_rows,
            loading: self.loading,
            error: self.error,
            filter: self.filter@,
            filtering: self.filtering,
            pending_g: self.pending_g,
            refresh_flash: self.refresh_flash,
            search_popup_open: self.search_popup_open,
            search_pattern: self.search_pattern@,
            search_hours: self.search_hours@,
            search_field: self.search_field,
            search_editing: self.search_editing,
            search_hours_editing: self.search_hours_editing,
            search_status: opt_text(self.search_status),
            insights_popup_open: self.insights_popup_open,
            insights_query: self.insights_query@,
            insights_hours: self.insights_hours@,
            insights_field: self.insights_field,
            insights_editing: self.insights_editing,
            insights_hours_editing: self.insights_hours_editing,
            insights_status: opt_text(self.insights_status),
            insights_groups: name_texts(self.insights_groups@),
            events_source: self.events_source,
            return_screen: self.return_screen,
            search_pattern_display: self.search_pattern_display@,
            search_continuing: self.search_continuing,
        }
    }

    /// Group `i` passes the filter (empty, or in its lowercase name).
    pub open spec fn keeps_group(self, i: int) -> bool {
        self.filter@.len() == 0 || seq_contains(lowercase(self.groups@[i].name@), lowercase(self.filter@))
    }

    /// Stream `i` passes the filter (empty, or in its lowercase name).
    pub open spec fn keeps_stream(self, i: int) -> bool {
        self.filter@.len() == 0 || seq_contains(lowercase(self.streams@[i].name@), lowercase(self.filter@))
    }

    /// Event `i` passes the filter (empty, or in its lowercase message).
    pub open spec fn keeps_event(self, i: int) -> bool {
        self.filter@.len() == 0 || seq_contains(lowercase(self.events@[i].message@), lowercase(self.filter@))
    }

    /// What group `i` is sorted by: lowercase name, stored bytes, retention
    /// (none first) or creation time as text.
    pub open spec fn group_key(self, i: int) -> KeyVal {
        let g = self.groups@[i];
        match self.group_sort_col {
            GroupSortCol::Name => KeyVal::Text(lowercase(g.name@)),
            GroupSortCol::StoredBytes => KeyVal::Int(g.stored_bytes as int),
            GroupSortCol::Retention => KeyVal::OptInt(
                match g.retention_days {
                    Some(d) => Some(d as int),
                    None => None,
                },
            ),
            GroupSortCol::Created => KeyVal::Text(g.created@),
        }
    }

    /// What stream `i` is sorted by: lowercase name, last event time (none
    /// first) or creation time as text.
    pub open spec fn stream_key(self, i: int) -> KeyVal {
        let s = self.streams@[i];
        match self.stream_sort_col {
            StreamSortCol::Name => KeyVal::Text(lowercase(s.name@)),
            StreamSortCol::LastEvent => KeyVal::OptText(opt_text(s.last_event)),
            StreamSortCol::Created => KeyVal::Text(s.created@),
        }
    }

    /// The positions of the groups that pass the filter.
    pub open spec fn matching_groups(self) -> Seq<usize> {
        positions_where(self.groups@.len(), |i: int| self.keeps_group(i))
    }

    /// The positions of the streams that pass the filter.
    pub open spec fn matching_streams(self) -> Seq<usize> {
        positions_where(self.streams@.len(), |i: int| self.keeps_stream(i))
    }

    /// The positions of the events that pass the filter, in order.
    pub open spec fn shown_events(self) -> Seq<usize> {
        positions_where(self.events@.len(), |i: int| self.keeps_event(i))
    }

    /// The positions of the shown groups, in order: those that pass the
    /// filter, sorted by the column (descending when asked), ties in service
    /// order.
    pub open spec fn shown_groups(self) -> Seq<usize> {
        arranged(
            self.matching_groups(),
            stable_order(
                self.matching_groups().map_values(|i: usize| EntryVal { group: 0, key: self.group_key(i as int) }),
                self.group_sort_dir == SortDir::Desc,
            ),
        )
    }

    /// The positions of the shown streams, in order.
    pub open spec fn shown_streams(self) -> Seq<usize> {
        arranged(
            self.matching_streams(),
            stable_order(
                self.matching_streams().map_values(|i: usize| EntryVal { group: 0, key: self.stream_key(i as int) }),
                self.stream_sort_dir == SortDir::Desc,
            ),
        )
    }

    /// The names of the shown groups, in order.
    pub open spec fn shown_group_names(self) -> Seq<Seq<char>> {
        self.shown_groups().map_values(|i: usize| self.groups@[i as int].name@)
    }

    fn matching_group_positions(&self) -> (r: Vec<usize>)
        ensures
            r@ == self.matching_groups(),
    {
        let n = self.groups.len();
        let empty = self.filter.as_str().is_empty();
        let f = lower_chars(self.filter.as_str());
        let ghost keep = |i: int| self.keeps_group(i);
        let mut r: Vec<usize> = Vec::new();
        let mut i: usize = 0;
        while i < n
            invariant
                n == self.groups@.len(),
                empty == (self.filter@.len() == 0),
                f@ == lowercase(self.filter@),
                keep == (|i: int| self.keeps_group(i)),
                0 <= i <= n,
                r@ == positions_where(i as nat, keep),
            decreases n - i,
        {
            if empty || contains_chars(&lower_chars(self.groups[i].name.as_str()), &f) {
                r.push(i);
            }
            i = i + 1;
        }
        r
    }

    fn matching_stream_positions(&self) -> (r: Vec<usize>)
        ensures
            r@ == self.matching_streams(),
    {
        let n = self.streams.len();
        let empty = self.filter.as_str().is_empty();
        let f = lower_chars(self.filter.as_str());
        let ghost keep = |i: int| self.keeps_stream(i);
        let mut r: Vec<usize> = Vec::new();
        let mut i: usize = 0;
        while i < n
            invariant
                n == self.streams@.len(),
                empty == (self.filter@.len() == 0),
                f@ == lowercase(self.filter@),
                keep == (|i: int| self.keeps_stream(i)),
                0 <= i <= n,
                r@ == positions_where(i as nat, keep),
            decreases n - i,
        {
            if empty || contains_chars(&lower_chars(self.streams[i].name.as_str()), &f) {
                r.push(i);
            }
            i = i + 1;
        }
        r
    }

    /// The positions of the shown events, in order.
    pub fn filtered_events(&self) -> (r: Vec<usize>)
        ensures
            r@ == self.shown_events(),
            forall|p: int| 0 <= p < r@.len() ==> #[trigger] r@[p] < self.events@.len(),
    {
        let n = self.events.len();
        let empty = self.filter.as_str().is_empty();
        let f = lower_chars(self.filter.as_str());
        let ghost keep = |i: int| self.keeps_event(i);
        let mut r: Vec<usize> = Vec::new();
        let mut i: usize = 0;
        while i < n
            invariant
                n == self.events@.len(),
                empty == (self.filter@.len() == 0),
                f@ == lowercase(self.filter@),
                keep == (|i: int| self.keeps_event(i)),
                0 <= i <= n,
                r@ == positions_where(i as nat, keep),
            decreases n - i,
        {
            if empty || contains_chars(&lower_chars(self.events[i].message.as_str()), &f) {
                r.push(i);
            }
            i = i + 1;
        }
        proof {
            lemma_positions_where(n as nat, keep);
        }
        r
    }

    /// The number of shown events.
    pub fn event_count(&self) -> (r: usize)
        ensures
            r == self.shown_events().len(),
    {
        self.filtered_events().len()
    }

    fn opt_chars(o: &Option<String>) -> (r: Option<Vec<char>>)
        ensures
            match o {
                Some(s) => r is Some && r->0@ == s@,
                None => r is None,
            },
    {
        match o {
            Some(s) => Some(chars_of(s.as_str())),
            None => None,
        }
    }

    /// The positions of the shown groups, in order.
    pub fn filtered_groups(&self) -> (r: Vec<usize>)
        ensures
            r@ == self.shown_groups(),
            forall|p: int| 0 <= p < r@.len() ==> #[trigger] r@[p] < self.groups@.len(),
    {
        let pos = self.matching_group_positions();
        let _total = self.groups.len();
        proof {
            lemma_positions_where(self.groups@.len(), |i: int| self.keeps_group(i));
        }
        let m = pos.len();
        let mut entries: Vec<SortEntry> = Vec::new();
        let mut p: usize = 0;
        while p < m
            invariant
                m == pos@.len(),
                pos@ == self.matching_groups(),
                forall|t: int| 0 <= t < m ==> #[trigger] pos@[t] < self.groups@.len(),
                0 <= p <= m,
                entries@.len() == p,
                forall|t: int| 0 <= t < p ==> #[trigger] entries@[t]@ == (EntryVal { group: 0, key: self.group_key(pos@[t] as int) }),
            decreases m - p,
        {
            let g = &self.groups[pos[p]];
            let key = match self.group_sort_col {
                GroupSortCol::Name => SortKey::Text(lower_chars(g.name.as_str())),
                GroupSortCol::StoredBytes => SortKey::Int(g.stored_bytes),
                GroupSortCol::Retention => SortKey::OptInt(
                    match g.retention_days {
                        Some(d) => Some(d as i64),
                        None => None,
                    },
                ),
                GroupSortCol::Created => SortKey::Text(chars_of(g.created.as_str())),
            };
            entries.push(SortEntry { group: 0, key });
            p = p + 1;
        }
        proof {
            assert(entry_vals(entries@) =~= self.matching_groups().map_values(|i: usize| EntryVal { group: 0, key: self.group_key(i as int) }));
        }
        let order = sort_order(&entries, self.group_sort_dir == SortDir::Desc);
        let r = arrange(&pos, &order);
        proof {
            assert forall|t: int| 0 <= t < r@.len() implies #[trigger] r@[t] < self.groups@.len() by {
                assert(order@[t] < pos@.len());
            }
        }
        r
    }

    /// The positions of the shown streams, in order.
    pub fn filtered_streams(&self) -> (r: Vec<usize>)
        ensures
            r@ == self.shown_streams(),
            forall|p: int| 0 <= p < r@.len() ==> #[trigger] r@[p] < self.streams@.len(),
    {
        let pos = self.matching_stream_positions();
        let _total = self.streams.len();
        proof {
            lemma_positions_where(self.streams@.len(), |i: int| self.keeps_stream(i));
        }
        let m = pos.len();
        let mut entries: Vec<SortEntry> = Vec::new();
        let mut p: usize = 0;
        while p < m
            invariant
                m == pos@.len(),
                pos@ == self.matching_streams(),
                forall|t: int| 0 <= t < m ==> #[trigger] pos@[t] < self.streams@.len(),
                0 <= p <= m,
                entries@.len() == p,
                forall|t: int| 0 <= t < p ==> #[trigger] entries@[t]@ == (EntryVal { group: 0, key: self.stream_key(pos@[t] as int) }),
            decreases m - p,
        {
            let s = &self.streams[pos[p]];
            let key = match self.stream_sort_col {
                StreamSortCol::Name => SortKey::Text(lower_chars(s.name.as_str())),
                StreamSortCol::LastEvent => SortKey::OptText(Self::opt_chars(&s.last_event)),
                StreamSortCol::Created => SortKey::Text(chars_of(s.created.as_str())),
            };
            entries.push(SortEntry { group: 0, key });
            p = p + 1;
        }
        proof {
            assert(entry_vals(entries@) =~= self.matching_streams().map_values(|i: usize| EntryVal { group: 0, key: self.stream_key(i as int) }));
        }
        let order = sort_order(&entries, self.stream_sort_dir == SortDir::Desc);
        let r = arrange(&pos, &order);
        proof {
            assert forall|t: int| 0 <= t < r@.len() implies #[trigger] r@[t] < self.streams@.len() by {
                assert(order@[t] < pos@.len());
            }
        }
        r
    }

    /// The names of the shown groups, in order.
    pub fn filtered_group_names(&self) -> (r: Vec<String>)
        ensures
            name_texts(r@) == self.shown_group_names(),
    {
        let shown = self.filtered_groups();
        let n = shown.len();
        let mut r: Vec<String> = Vec::new();
        let mut i: usize = 0;
        while i < n
            invariant
                n == shown@.len(),
                shown@ == self.shown_groups(),
                forall|p: int| 0 <= p < shown@.len() ==> #[trigger] shown@[p] < self.groups@.len(),
                0 <= i <= n,
                name_texts(r@) == self.shown_group_names().take(i as int),
            decreases n - i,
        {
            let ghost old_r = r@;
            let c = copy_string(&self.groups[shown[i]].name);
            r.push(c);
            proof {
                lemma_name_texts_push(old_r, c);
                assert(name_texts(r@) =~= self.shown_group_names().take(i + 1));
            }
            i = i + 1;
        }
        proof {
            assert(self.shown_group_names().take(n as int) =~= self.shown_group_names());
        }
        r
    }

    /// The group under the cursor, if the cursor is on a shown row.
    pub fn selected_group(&self) -> (r: Option<&LogGroupInfo>)
        ensures
            self.group_selected < self.shown_groups().len() ==> r == Some(&self.groups@[self.shown_groups()[self.group_selected as int] as int]),
            self.group_selected >= self.shown_groups().len() ==> r is None,
    {
        let shown = self.filtered_groups();
        if self.group_selected < shown.len() {
            Some(&self.groups[shown[self.group_selected]])
        } else {
            None
        }
    }

    /// The stream under the cursor, if the cursor is on a shown row.
    pub fn selected_stream(&self) -> (r: Option<&LogStreamInfo>)
        ensures
            self.stream_selected < self.shown_streams().len() ==> r == Some(&self.streams@[self.shown_streams()[self.stream_selected as int] as int]),
            self.stream_selected >= self.shown_streams().len() ==> r is None,
    {
        let shown = self.filtered_streams();
        if self.stream_selected < shown.len() {
            Some(&self.streams[shown[self.stream_selected]])
        } else {
            None
        }
    }
}


/// The part of a group name from its next-to-last `/` on (all of it when it
/// has fewer than two): `/aws/lambda/my-fn` becomes `/lambda/my-fn`.
pub open spec fn short_group_name(name: Seq<char>) -> Seq<char> {
    let last = last_index_of(name, '/');
    let second = last_index_of(name.take(last), '/');
    name.subrange(second, name.len() as int)
}

/// The position of the last `c` in `s`, or 0 when there is none.
pub open spec fn last_index_of(s: Seq<char>, c: char) -> int
    decreases s.len(),
{
    if s.len() == 0 {
        0
    } else if s.last() == c {
        s.len() - 1
    } else {
        last_index_of(s.drop_last(), c)
    }
}

proof fn lemma_last_index_bound(s: Seq<char>, c: char)
    ensures
        0 <= last_index_of(s, c) <= s.len(),
        s.len() > 0 ==> last_index_of(s, c) < s.len(),
    decreases s.len(),
{
    if s.len() > 0 && s.last() != c {
        lemma_last_index_bound(s.drop_last(), c);
    }
}

fn find_last(s: &Vec<char>, upto: usize, c: char) -> (r: usize)
    requires
        upto <= s@.len(),
    ensures
        r == last_index_of(s@.take(upto as int), c),
        r <= upto,
{
    let mut i = upto;
    proof {
        lemma_last_index_bound(s@.take(upto as int), c);
    }
    while i > 0 && s[i - 1] != c
        invariant
            0 <= i <= upto <= s@.len(),
            last_index_of(s@.take(upto as int), c) == last_index_of(s@.take(i as int), c),
        decreases i,
    {
        proof {
            assert(s@.take(i as int).drop_last() =~= s@.take(i - 1));
        }
        i = i - 1;
    }
    if i == 0 {
        0
    } else {
        i - 1
    }
}

/// Shortens a group name for titles (see `short_group_name`).
pub fn shorten_group_name(name: &str) -> (r: String)
    ensures
        r@ == short_group_name(name@),
{
    let v = chars_of(name);
    let n = v.len();
    let last = find_last(&v, n, '/');
    let second = find_last(&v, last, '/');
    proof {
        assert(v@.take(n as int) =~= v@);
        assert(v@.take(last as int) =~= name@.take(last as int));
    }
    string_from_chars(&sub_chars(&v, second, n))
}

/// The group name shown in titles.
pub open spec fn title_group(m: CwState) -> Seq<char> {
    short_group_name(m.active_group)
}

/// The title of the pane for a state.
pub open spec fn breadcrumb_text(m: CwState) -> Seq<char> {
    match m.screen {
        CwScreen::Groups => "CloudWatch > Log Groups"@,
        CwScreen::Streams => "CloudWatch > "@ + title_group(m),
        CwScreen::Events => match m.events_source {
            EventsSource::Stream => "CloudWatch > "@ + title_group(m) + " > "@ + truncated(m.active_stream, 30),
            EventsSource::Search => "CloudWatch > "@ + title_group(m) + " > Search"@,
            EventsSource::Insights => if m.insights_groups.len() > 1 {
                "CloudWatch > All Groups > Insights"@
            } else {
                "CloudWatch > "@ + title_group(m) + " > Insights"@
            },
        },
    }
}

/// What a poll of an Insights query led to.
#[derive(Debug, Clone, Copy, PartialEq, Eq, Structural)]
pub enum InsightsPoll {
    /// The query completed; its rows are shown as events.
    Complete,
    /// The query failed, was cancelled or timed out.
    Stopped,
    /// The query still runs.
    Running,
}

/// How a query status reported by a poll is read: `Complete`; `Failed`,
/// `Cancelled` or `Timeout` stop the query; anything else still runs.
pub open spec fn poll_kind(status: Seq<char>) -> InsightsPoll {
    if status == "Complete"@ {
        InsightsPoll::Complete
    } else if status == "Failed"@ || status == "Cancelled"@ || status == "Timeout"@ {
        InsightsPoll::Stopped
    } else {
        InsightsPoll::Running
    }
}

/// Reads a query status (see `poll_kind`).
pub fn classify_poll(status: &str) -> (k: InsightsPoll)
    ensures
        k == poll_kind(status@),
{
    if str_eq(status, "Complete") {
        InsightsPoll::Complete
    } else if str_eq(status, "Failed") || str_eq(status, "Cancelled") || str_eq(status, "Timeout") {
        InsightsPoll::Stopped
    } else {
        InsightsPoll::Running
    }
}

impl CloudWatchView {
    /// The group list is as it was.
    pub open spec fn same_groups(self, other: CloudWatchView) -> bool {
        self.groups == other.groups
    }

    /// Replaces the group list after a load.
    pub fn set_groups(&mut self, groups: Vec<LogGroupInfo>)
        ensures
            final(self).groups == groups,
            final(self).state() == (CwState { loading: false, error: None, group_selected: 0, group_list_offset: 0, ..old(self).state() }),
    {
        self.groups = groups;
        self.loading = false;
        self.error = None;
        self.group_selected = 0;
        self.group_list_offset = 0;
    }

    /// Records a failed call.
    pub fn set_error(&mut self, error: String)
        ensures
            final(self).same_groups(*old(self)),
            final(self).state() == (CwState { error: Some(error), loading: false, ..old(self).state() }),
    {
        self.error = Some(error);
        self.loading = false;
    }

    /// Opens a group's stream list, waiting for it.
    pub fn enter_group(&mut self, name: String)
        ensures
            final(self).same_groups(*old(self)),
            final(self).state() == (CwState {
                active_group: name@,
                screen: CwScreen::Streams,
                streams: Seq::empty(),
                stream_selected: 0,
                loading: true,
                error: None,
                filter: Seq::empty(),
                filtering: false,
                ..old(self).state()
            }),
    {
        self.active_group = name;
        self.screen = CwScreen::Streams;
        self.streams.clear();
        self.stream_selected = 0;
        self.loading = true;
        self.error = None;
        clear_string(&mut self.filter);
        self.filtering = false;
    }

    /// Replaces the stream list after a load.
    pub fn set_streams(&mut self, streams: Vec<LogStreamInfo>)
        ensures
            final(self).same_groups(*old(self)),
            final(self).state() == (CwState {
                streams: streams@,
                loading: false,
                error: None,
                stream_selected: 0,
                stream_list_offset: 0,
                ..old(self).state()
            }),
    {
        self.streams = streams;
        self.loading = false;
        self.error = None;
        self.stream_selected = 0;
        self.stream_list_offset = 0;
    }

    /// Opens a stream's events, waiting for them.
    pub fn enter_stream(&mut self, name: String)
        ensures
            final(self).same_groups(*old(self)),
            final(self).state() == (CwState {
                active_stream: name@,
                screen: CwScreen::Events,
                events: Seq::empty(),
                next_token: None,
                event_scroll: 0,
                loading: true,
                error: None,
                filter: Seq::empty(),
                filtering: false,
                ..old(self).state()
            }),
    {
        self.active_stream = name;
        self.screen = CwScreen::Events;
        self.events.clear();
        self.next_token = None;
        self.event_scroll = 0;
        self.loading = true;
        self.error = None;
        clear_string(&mut self.filter);
        self.filtering = false;
    }

    /// Replaces the events with a first page.
    pub fn set_events(&mut self, events: Vec<LogEvent>, next_token: Option<String>)
        ensures
            final(self).same_groups(*old(self)),
            final(self).state() == (CwState {
                events: events@,
                next_token: next_token,
                loading: false,
                error: None,
                event_scroll: 0,
                ..old(self).state()
            }),
    {
        self.events = events;
        self.next_token = next_token;
        self.loading = false;
        self.error = None;
        self.event_scroll = 0;
    }

    /// Adds a further page of events.
    pub fn append_events(&mut self, events: Vec<LogEvent>, next_token: Option<String>)
        ensures
            final(self).same_groups(*old(self)),
            final(self).state() == (CwState {
                events: old(self).events@ + events@,
                next_token: next_token,
                loading: false,
                ..old(self).state()
            }),
    {
        let mut events = events;
        self.events.append(&mut events);
        self.next_token = next_token;
        self.loading = false;
    }

    fn back_from_events(&mut self)
        requires
            old(self).screen == CwScreen::Events,
            !old(self).filtering,
            old(self).filter@ == Seq::<char>::empty(),
        ensures
            final(self).same_groups(*old(self)),
            final(self).state() == back_step(old(self).state()).0,
    {
        self.search_continuing = false;
        if self.events_source != EventsSource::Stream {
            self.screen = self.return_screen;
            self.events.clear();
            self.events_source = EventsSource::Stream;
            self.loading = false;
        } else {
            self.screen = CwScreen::Streams;
            self.events.clear();
            self.loading = false;
        }
        proof {
            assert(self.events@ =~= Seq::<LogEvent>::empty());
        }
    }

    fn back_from_streams(&mut self)
        requires
            old(self).screen == CwScreen::Streams,
            !old(self).filtering,
            old(self).filter@ == Seq::<char>::empty(),
        ensures
            final(self).same_groups(*old(self)),
            final(self).state() == back_step(old(self).state()).0,
    {
        self.screen = CwScreen::Groups;
        self.streams.clear();
        self.loading = false;
        proof {
            assert(self.streams@ =~= Seq::<LogStreamInfo>::empty());
        }
    }

    /// Esc: drops a filter being typed or goes back one screen (see
    /// `back_step`); tells whether anything was left.
    pub fn go_back(&mut self) -> (r: bool)
        ensures
            final(self).same_groups(*old(self)),
            (final(self).state(), r) == back_step(old(self).state()),
    {
        if self.filtering {
            self.filtering = false;
            clear_string(&mut self.filter);
            return true;
        }
        clear_string(&mut self.filter);
        self.filtering = false;
        let ghost mid = self.state();
        proof {
            assert(back_step(old(self).state()) == back_step(mid));
        }
        match self.screen {
            CwScreen::Events => {
                self.back_from_events();
                true
            },
            CwScreen::Streams => {
                self.back_from_streams();
                true
            },
            CwScreen::Groups => false,
        }
    }

    /// Whether keys go to a text being typed.
    pub fn is_editing(&self) -> (r: bool)
        ensures
            r == (self.filtering || self.search_editing || self.search_hours_editing || self.insights_editing
                || self.insights_hours_editing),
    {
        self.filtering || self.search_editing || self.search_hours_editing || self.insights_editing
            || self.insights_hours_editing
    }

    /// Whether a pop-up is open (it takes every key).
    pub fn has_overlay(&self) -> (r: bool)
        ensures
            r == (self.search_popup_open || self.insights_popup_open),
    {
        self.search_popup_open || self.insights_popup_open
    }

    /// Opens the search pop-up (see `open_search`).
    pub fn open_search_popup(&mut self)
        ensures
            final(self).same_groups(*old(self)),
            final(self).state() == open_search(old(self).state()),
    {
        self.search_popup_open = true;
        clear_string(&mut self.search_pattern);
        self.search_field = SearchField::Pattern;
        self.search_editing = false;
        self.search_hours_editing = false;
        self.search_status = None;
        self.return_screen = self.screen;
    }

    /// Opens the Insights pop-up (see `open_insights`).
    pub fn open_insights_popup(&mut self)
        ensures
            final(self).same_groups(*old(self)),
            final(self).state() == open_insights(old(self).state()),
    {
        self.insights_popup_open = true;
        self.insights_field = InsightsField::Query;
        self.insights_editing = false;
        self.insights_hours_editing = false;
        self.insights_status = None;
        self.return_screen = self.screen;
    }

    /// Closes the search pop-up and opens the events screen for the search,
    /// empty and loading, before its pages stream in.
    pub fn start_search_view(&mut self)
        ensures
            final(self).same_groups(*old(self)),
            final(self).state() == (CwState {
                search_popup_open: false,
                search_editing: false,
                search_hours_editing: false,
                search_pattern_display: old(self).search_pattern@,
                events_source: EventsSource::Search,
                screen: CwScreen::Events,
                events: Seq::empty(),
                next_token: None,
                event_scroll: 0,
                loading: true,
                error: None,
                filter: Seq::empty(),
                filtering: false,
                search_continuing: true,
                ..old(self).state()
            }),
    {
        self.search_popup_open = false;
        self.search_editing = false;
        self.search_hours_editing = false;
        self.search_pattern_display = copy_string(&self.search_pattern);
        self.events_source = EventsSource::Search;
        self.screen = CwScreen::Events;
        self.events.clear();
        self.next_token = None;
        self.event_scroll = 0;
        self.loading = true;
        self.error = None;
        clear_string(&mut self.filter);
        self.filtering = false;
        self.search_continuing = true;
    }

    /// Closes the Insights pop-up and shows the query's rows as events.
    pub fn enter_insights_results(&mut self, events: Vec<LogEvent>)
        ensures
            final(self).same_groups(*old(self)),
            final(self).state() == (CwState {
                insights_popup_open: false,
                insights_editing: false,
                events_source: EventsSource::Insights,
                screen: CwScreen::Events,
                events: events@,
                next_token: None,
                event_scroll: 0,
                loading: false,
                error: None,
                filter: Seq::empty(),
                filtering: false,
                ..old(self).state()
            }),
    {
        self.insights_popup_open = false;
        self.insights_editing = false;
        self.events_source = EventsSource::Insights;
        self.screen = CwScreen::Events;
        self.events = events;
        self.next_token = None;
        self.event_scroll = 0;
        self.loading = false;
        self.error = None;
        clear_string(&mut self.filter);
        self.filtering = false;
    }

    /// Whether the group list still has to be loaded.
    pub fn needs_group_load(&self) -> (r: bool)
        ensures
            r == (self.screen == CwScreen::Groups && self.loading),
    {
        self.screen == CwScreen::Groups && self.loading
    }

    /// `"groups"`, `"streams"` or `"events"`.
    pub fn screen_type(&self) -> (r: &'static str)
        ensures
            r@ == (match self.screen {
                CwScreen::Groups => "groups"@,
                CwScreen::Streams => "streams"@,
                CwScreen::Events => "events"@,
            }),
    {
        match self.screen {
            CwScreen::Groups => "groups",
            CwScreen::Streams => "streams",
            CwScreen::Events => "events",
        }
    }

    /// The title of the pane (see `breadcrumb_text`); the stream name is cut
    /// to 30 bytes, which must fall between two characters.
    pub fn breadcrumb(&self) -> (r: String)
        requires
            self.screen == CwScreen::Events && self.events_source == EventsSource::Stream
                ==> truncation_is_safe(self.active_stream@, 30),
        ensures
            r@ == breadcrumb_text(self.state()),
    {
        match self.screen {
            CwScreen::Groups => owned("CloudWatch > Log Groups"),
            CwScreen::Streams => {
                let mut r = owned("CloudWatch > ");
                push_str(&mut r, shorten_group_name(self.active_group.as_str()).as_str());
                r
            },
            CwScreen::Events => {
                match self.events_source {
                    EventsSource::Stream => {
                        let mut r = owned("CloudWatch > ");
                        push_str(&mut r, shorten_group_name(self.active_group.as_str()).as_str());
                        push_str(&mut r, " > ");
                        push_str(&mut r, truncate_str(self.active_stream.as_str(), 30).as_str());
                        r
                    },
                    EventsSource::Search => {
                        let mut r = owned("CloudWatch > ");
                        push_str(&mut r, shorten_group_name(self.active_group.as_str()).as_str());
                        push_str(&mut r, " > Search");
                        r
                    },
                    EventsSource::Insights => {
                        if self.insights_groups.len() > 1 {
                            owned("CloudWatch > All Groups > Insights")
                        } else {
                            let mut r = owned("CloudWatch > ");
                            push_str(&mut r, shorten_group_name(self.active_group.as_str()).as_str());
                            push_str(&mut r, " > Insights");
                            r
                        }
                    },
                }
            },
        }
    }

    /// A page of search results arrived: its events (if any) are added and
    /// its token kept; when it was the last page, loading and the search
    /// stop. Tells whether more pages remain.
    pub fn search_page(&mut self, events: Vec<LogEvent>, next_token: Option<String>) -> (more: bool)
        ensures
            final(self).same_groups(*old(self)),
            more == next_token is Some,
            final(self).state() == (CwState {
                events: old(self).events@ + events@,
                next_token: next_token,
                loading: if more { old(self).loading } else { false },
                search_continuing: if more { old(self).search_continuing } else { false },
                ..old(self).state()
            }),
    {
        let more = next_token.is_some();
        if events.len() > 0 {
            let mut events = events;
            self.events.append(&mut events);
        } else {
            proof {
                assert(old(self).events@ + events@ =~= old(self).events@);
            }
        }
        self.next_token = next_token;
        if !more {
            self.loading = false;
            self.search_continuing = false;
        }
        more
    }

    /// A search page failed: with no events yet the error is shown, else
    /// the events stay and no further page is asked for; the search stops.
    pub fn search_failed(&mut self, error: String)
        ensures
            final(self).same_groups(*old(self)),
            final(self).state() == (if old(self).events@.len() == 0 {
                CwState { error: Some(error), loading: false, search_continuing: false, ..old(self).state() }
            } else {
                CwState { next_token: None, loading: false, search_continuing: false, ..old(self).state() }
            }),
    {
        if self.events.len() == 0 {
            self.error = Some(error);
            self.loading = false;
        } else {
            self.next_token = None;
            self.loading = false;
        }
        self.search_continuing = false;
    }

    /// A burst of search pages ended with more to come: with no events yet
    /// the search goes on in the background (still loading), else scrolling
    /// asks for the rest.
    pub fn search_burst_done(&mut self)
        ensures
            final(self).same_groups(*old(self)),
            final(self).state() == (if old(self).events@.len() == 0 {
                CwState { search_continuing: true, ..old(self).state() }
            } else {
                CwState { search_continuing: false, loading: false, ..old(self).state() }
            }),
    {
        if self.events.len() == 0 {
            self.search_continuing = true;
        } else {
            self.search_continuing = false;
            self.loading = false;
        }
    }

    /// A page of a search burst arrived, the `calls`-th call of the burst:
    /// it is added (see `search_page`); the burst goes on while more pages
    /// remain and fewer than `SEARCH_BURST_CALLS` calls were made; after
    /// the last call with more to come the burst ends (see
    /// `search_burst_done`). Tells whether to make another call.
    pub fn search_burst_page(&mut self, calls: usize, events: Vec<LogEvent>, next_token: Option<String>) -> (go_on: bool)
        ensures
            final(self).same_groups(*old(self)),
            go_on == (next_token is Some && calls < SEARCH_BURST_CALLS),
            ({
                let more = next_token is Some;
                let s1 = CwState {
                    events: old(self).events@ + events@,
                    next_token: next_token,
                    loading: if more { old(self).loading } else { false },
                    search_continuing: if more { old(self).search_continuing } else { false },
                    ..old(self).state()
                };
                final(self).state() == (if more && calls >= SEARCH_BURST_CALLS {
                    if s1.events.len() == 0 {
                        CwState { search_continuing: true, ..s1 }
                    } else {
                        CwState { search_continuing: false, loading: false, ..s1 }
                    }
                } else {
                    s1
                })
            }),
    {
        let more = self.search_page(events, next_token);
        if !more {
            return false;
        }
        if calls < SEARCH_BURST_CALLS {
            return true;
        }
        self.search_burst_done();
        false
    }

    /// An Insights call failed with `message`: the pop-up shows
    /// `Error: {message}` and loading stops.
    pub fn insights_failed(&mut self, message: &str)
        ensures
            final(self).same_groups(*old(self)),
            final(self).state() == (CwState { insights_status: Some("Error: "@ + message@), loading: false, ..old(self).state() }),
    {
        let mut t = owned("Error: ");
        push_str(&mut t, message);
        self.insights_status = Some(t);
        self.loading = false;
    }

    /// The query was started: the pop-up shows `Running...`.
    pub fn insights_started(&mut self)
        ensures
            final(self).same_groups(*old(self)),
            final(self).state() == (CwState { insights_status: Some("Running..."@), ..old(self).state() }),
    {
        self.insights_status = Some(owned("Running..."));
    }

    /// A poll of the query answered with `status` and `rows`: `Complete`
    /// shows the rows as events (`Complete — N results`); `Failed`,
    /// `Cancelled` and `Timeout` stop loading (`Query {status}`); anything
    /// else is still running (`Running... (N rows so far)`).
    fn poll_complete(&mut self, rows: &Vec<Vec<(String, String)>>)
        ensures
            final(self).same_groups(*old(self)),
            final(self).screen == CwScreen::Events,
            final(self).events_source == EventsSource::Insights,
            final(self).events@.len() == rows@.len(),
            forall|i: int| 0 <= i < rows@.len() ==> crate::aws::cloudwatch::row_event_ok(
                #[trigger] final(self).events@[i],
                crate::aws::cloudwatch::row_texts(rows@[i]@),
            ),
            opt_text(final(self).insights_status) == Some("Complete — "@ + crate::text::digits(rows@.len()) + " results"@),
            !final(self).insights_popup_open,
            !final(self).loading,
    {
        let events = crate::aws::cloudwatch::insights_events(rows);
        let mut t = owned("Complete — ");
        crate::text::push_digits(&mut t, events.len() as u64);
        push_str(&mut t, " results");
        self.insights_status = Some(t);
        self.enter_insights_results(events);
    }

    fn stopped_text(status: &str) -> (t: String)
        ensures
            t@ == "Query "@ + status@,
    {
        let mut t = owned("Query ");
        push_str(&mut t, status);
        t
    }

    fn running_text(count: usize) -> (t: String)
        ensures
            t@ == "Running... ("@ + crate::text::digits(count as nat) + " rows so far)"@,
    {
        let mut t = owned("Running... (");
        crate::text::push_digits(&mut t, count as u64);
        push_str(&mut t, " rows so far)");
        t
    }

    pub fn insights_polled(&mut self, status: &str, rows: &Vec<Vec<(String, String)>>) -> (r: InsightsPoll)
        ensures
            r == poll_kind(status@),
            final(self).same_groups(*old(self)),
            r == InsightsPoll::Complete ==> final(self).screen == CwScreen::Events
                && final(self).events_source == EventsSource::Insights && final(self).events@.len() == rows@.len()
                && (forall|i: int| 0 <= i < rows@.len() ==> crate::aws::cloudwatch::row_event_ok(
                    #[trigger] final(self).events@[i],
                    crate::aws::cloudwatch::row_texts(rows@[i]@),
                )) && opt_text(final(self).insights_status) == Some(
                    "Complete — "@ + crate::text::digits(rows@.len()) + " results"@,
                ) && !final(self).insights_popup_open && !final(self).loading,
            r != InsightsPoll::Complete ==> final(self).state() == (CwState {
                insights_status: Some(
                    if r == InsightsPoll::Stopped {
                        "Query "@ + status@
                    } else {
                        "Running... ("@ + crate::text::digits(rows@.len()) + " rows so far)"@
                    },
                ),
                loading: r == InsightsPoll::Running && old(self).loading,
                ..old(self).state()
            }),
    {
        let kind = classify_poll(status);
        match kind {
            InsightsPoll::Complete => {
                self.poll_complete(rows);
                InsightsPoll::Complete
            },
            InsightsPoll::Stopped => {
                self.insights_status = Some(Self::stopped_text(status));
                self.loading = false;
                InsightsPoll::Stopped
            },
            InsightsPoll::Running => {
                self.insights_status = Some(Self::running_text(rows.len()));
                InsightsPoll::Running
            },
        }
    }

    /// A refresh completed: the refresh note shows for six frames.
    pub fn refreshed(&mut self)
        ensures
            final(self).same_groups(*old(self)),
            final(self).state() == (CwState { refresh_flash: 6, ..old(self).state() }),
    {
        self.refresh_flash = 6;
    }

    /// A frame was drawn: the refresh note fades by one frame.
    pub fn tick_flash(&mut self)
        ensures
            final(self).same_groups(*old(self)),
            final(self).state() == (CwState {
                refresh_flash: if old(self).refresh_flash > 0 {
                    (old(self).refresh_flash - 1) as u8
                } else {
                    0
                },
                ..old(self).state()
            }),
    {
        if self.refresh_flash > 0 {
            self.refresh_flash -= 1;
        }
    }

    /// Records how many event rows the screen shows.
    pub fn set_visible_rows(&mut self, rows: usize)
        ensures
            final(self).same_groups(*old(self)),
            final(self).state() == (CwState { event_visible_rows: rows, ..old(self).state() }),
    {
        self.event_visible_rows = rows;
    }

    /// Keeps the event scroll offset within the last screenful of the shown
    /// events.
    pub fn clamp_event_scroll(&mut self)
        ensures
            final(self).same_groups(*old(self)),
            final(self).state() == (CwState {
                event_scroll: if old(self).event_scroll > sat_sub_usize(
                    old(self).shown_events().len() as usize,
                    old(self).event_visible_rows as int,
                ) {
                    sat_sub_usize(old(self).shown_events().len() as usize, old(self).event_visible_rows as int)
                } else {
                    old(self).event_scroll
                },
                ..old(self).state()
            }),
    {
        let count = self.event_count();
        let max_scroll = if count >= self.event_visible_rows {
            count - self.event_visible_rows
        } else {
            0
        };
        if self.event_scroll > max_scroll {
            self.event_scroll = max_scroll;
        }
    }

    /// Records the first rows the group and stream lists were drawn from.
    pub fn set_list_offsets(&mut self, group_offset: usize, stream_offset: usize)
        ensures
            final(self).same_groups(*old(self)),
            final(self).state() == (CwState { group_list_offset: group_offset, stream_list_offset: stream_offset, ..old(self).state() }),
    {
        self.group_list_offset = group_offset;
        self.stream_list_offset = stream_offset;
    }
}

impl CloudWatchView {
    /// The filter after a key typed into it (see `filter_text`).
    fn filter_after(f: &String, key: &KeyEvent) -> (r: String)
        ensures
            r@ == filter_text(f@, *key),
    {
        let mut t = copy_string(f);
        match key.code {
            KeyCode::Esc => clear_string(&mut t),
            KeyCode::Backspace => {
                pop_char(&mut t);
            },
            KeyCode::Char(c) => push_char(&mut t, c),
            _ => {},
        }
        t
    }

    /// A key typed into the filter (see `filter_step`).
    fn filter_key(&mut self, key: &KeyEvent)
        ensures
            final(self).same_groups(*old(self)),
            final(self).state() == filter_step(old(self).state(), *key),
    {
        let edits = match key.code {
            KeyCode::Backspace | KeyCode::Char(_) => true,
            _ => false,
        };
        let closes = key.code == KeyCode::Esc || key.code == KeyCode::Enter;
        let screen = self.screen;
        self.filter = Self::filter_after(&self.filter, key);
        self.filtering = if closes { false } else { self.filtering };
        self.group_selected = if edits && screen == CwScreen::Groups { 0 } else { self.group_selected };
        self.stream_selected = if edits && screen == CwScreen::Streams { 0 } else { self.stream_selected };
        self.event_scroll = if edits && screen == CwScreen::Events { 0 } else { self.event_scroll };
    }

    /// Whether a text is empty.
    fn text_empty(t: &String) -> (r: bool)
        ensures
            r == (t@.len() == 0),
    {
        t.as_str().is_empty()
    }

    /// Whether the key is Esc or Enter.
    fn key_ends_typing(key: &KeyEvent) -> (r: bool)
        ensures
            r == ends_typing(*key),
    {
        key.code == KeyCode::Esc || key.code == KeyCode::Enter
    }

    /// The text after a key typed into it (see `typed_text`).
    fn text_after(t: &String, key: &KeyEvent) -> (r: String)
        ensures
            r@ == typed_text(t@, *key),
    {
        let mut r = copy_string(t);
        match key.code {
            KeyCode::Backspace => {
                pop_char(&mut r);
            },
            KeyCode::Char(c) => push_char(&mut r, c),
            _ => {},
        }
        r
    }

    /// The hours text after a key typed into it (see `typed_hours`).
    fn hours_after(t: &String, key: &KeyEvent) -> (r: String)
        ensures
            r@ == typed_hours(t@, *key),
    {
        match key.code {
            KeyCode::Char(c) => {
                let mut r = copy_string(t);
                if is_hours_char(c) {
                    push_char(&mut r, c);
                }
                r
            },
            _ => Self::text_after(t, key),
        }
    }

    /// A key while the search pattern is being typed.
    fn search_pattern_key(self, key: &KeyEvent) -> (v: Self)
        ensures
            v.same_groups(self),
            v.state() == search_pattern_step(self.state(), *key),
    {
        let t = Self::text_after(&self.search_pattern, key);
        let ends = Self::key_ends_typing(key);
        let mut v = self;
        v.search_pattern = t;
        v.search_editing = v.search_editing && !ends;
        v
    }

    /// A key while the search time range is being typed.
    fn search_hours_key(self, key: &KeyEvent) -> (v: Self)
        ensures
            v.same_groups(self),
            v.state() == search_hours_step(self.state(), *key),
    {
        let t = Self::hours_after(&self.search_hours, key);
        let ends = Self::key_ends_typing(key);
        let mut v = self;
        v.search_hours = t;
        v.search_hours_editing = v.search_hours_editing && !ends;
        v
    }

    /// A key in the search pop-up while nothing is being typed.
    #[verifier::rlimit(40)]
    fn search_menu_key(self, key: &KeyEvent) -> (res: (Self, Option<Action>))
        ensures
            res.0.same_groups(self),
            res.0.state() == search_menu_step(self.state(), *key).0,
            res.1 == search_menu_step(self.state(), *key).1,
    {
        let has_pattern = !Self::text_empty(&self.search_pattern);
        let switches = key.down() || key.up();
        let starts = !switches && (key.char_is('i') || key.code == KeyCode::Enter);
        let runs = !switches && !starts && key.char_is('r') && has_pattern;
        let closes = !switches && !starts && !key.char_is('r') && key.code == KeyCode::Esc;
        let on_pattern = self.search_field == SearchField::Pattern;
        let mut v = self;
        v.search_field = if !switches {
            v.search_field
        } else if on_pattern {
            SearchField::TimeRange
        } else {
            SearchField::Pattern
        };
        v.search_editing = v.search_editing || (starts && on_pattern);
        v.search_hours_editing = v.search_hours_editing || (starts && !on_pattern);
        v.loading = v.loading || runs;
        v.search_popup_open = v.search_popup_open && !closes;
        (v, Some(if runs { Action::CwRunSearch } else { Action::NoOp }))
    }

    /// A key in the search pop-up (see `search_step`).
    fn search_popup_key(self, key: &KeyEvent) -> (res: (Self, Option<Action>))
        ensures
            res.0.same_groups(self),
            (res.0.state(), res.1) == search_step(self.state(), *key),
    {
        if self.search_editing {
            (self.search_pattern_key(key), Some(Action::NoOp))
        } else if self.search_hours_editing {
            (self.search_hours_key(key), Some(Action::NoOp))
        } else {
            self.search_menu_key(key)
        }
    }

    /// A key while the Insights query is being typed.
    fn insights_query_key(self, key: &KeyEvent) -> (v: Self)
        ensures
            v.same_groups(self),
            v.state() == insights_query_step(self.state(), *key),
    {
        let esc = key.code == KeyCode::Esc;
        let t = if esc {
            copy_string(&self.insights_query)
        } else if key.code == KeyCode::Enter {
            let mut q = copy_string(&self.insights_query);
            push_char(&mut q, '\n');
            q
        } else {
            Self::text_after(&self.insights_query, key)
        };
        let mut v = self;
        v.insights_query = t;
        v.insights_editing = v.insights_editing && !esc;
        v
    }

    /// A key while the Insights time range is being typed.
    fn insights_hours_key(self, key: &KeyEvent) -> (v: Self)
        ensures
            v.same_groups(self),
            v.state() == insights_hours_step(self.state(), *key),
    {
        let t = Self::hours_after(&self.insights_hours, key);
        let ends = Self::key_ends_typing(key);
        let mut v = self;
        v.insights_hours = t;
        v.insights_hours_editing = v.insights_hours_editing && !ends;
        v
    }

    /// A key in the Insights pop-up while nothing is being typed.
    #[verifier::rlimit(40)]
    fn insights_menu_key(self, key: &KeyEvent) -> (res: (Self, Option<Action>))
        ensures
            res.0.same_groups(self),
            res.0.state() == insights_menu_step(self.state(), *key).0,
            res.1 == insights_menu_step(self.state(), *key).1,
    {
        let query = trim_str(self.insights_query.as_str());
        let has_query = !query.as_str().is_empty();
        let switches = key.down() || key.up();
        let starts = !switches && (key.char_is('i') || key.code == KeyCode::Enter);
        let runs = !switches && !starts && key.char_is('r') && has_query;
        let closes = !switches && !starts && !key.char_is('r') && key.code == KeyCode::Esc;
        let on_query = self.insights_field == InsightsField::Query;
        let status = if runs {
            Some(owned("Starting..."))
        } else {
            copy_opt_string(&self.insights_status)
        };
        let mut v = self;
        v.insights_field = if !switches {
            v.insights_field
        } else if on_query {
            InsightsField::TimeRange
        } else {
            InsightsField::Query
        };
        v.insights_editing = v.insights_editing || (starts && on_query);
        v.insights_hours_editing = v.insights_hours_editing || (starts && !on_query);
        v.loading = v.loading || runs;
        v.insights_status = status;
        v.insights_popup_open = v.insights_popup_open && !closes;
        (v, Some(if runs { Action::CwRunInsights } else { Action::NoOp }))
    }

    /// A key in the Insights pop-up (see `insights_step`).
    fn insights_popup_key(self, key: &KeyEvent) -> (res: (Self, Option<Action>))
        ensures
            res.0.same_groups(self),
            (res.0.state(), res.1) == insights_step(self.state(), *key),
    {
        if self.insights_editing {
            (self.insights_query_key(key), Some(Action::NoOp))
        } else if self.insights_hours_editing {
            (self.insights_hours_key(key), Some(Action::NoOp))
        } else {
            self.insights_menu_key(key)
        }
    }

    /// The events view moved by a scrolling key (see `scroll_moved`).
    fn scroll_move_key(self, key: &KeyEvent, count: usize) -> (v: Self)
        ensures
            v.same_groups(self),
            v.state() == scroll_moved(self.state(), count, *key),
    {
        let max = if count > self.event_visible_rows { count - self.event_visible_rows } else { 0 };
        let pending = key.char_is('g') && !self.pending_g;
        let scroll = scroll_after(self.event_scroll, self.pending_g, max, key);
        let mut v = self;
        v.pending_g = pending;
        v.event_scroll = scroll;
        v
    }

    /// Whether the next page is wanted (see `wants_page`).
    fn page_wanted(&self, count: usize) -> (r: bool)
        ensures
            r == wants_page(self.state(), count),
    {
        !self.loading && self.next_token.is_some()
            && (self.event_scroll as u128) + (self.event_visible_rows as u128) + 10 >= count as u128
    }

    /// Asks for the next page when it is wanted (see `auto_load`).
    fn auto_load_key(self, count: usize) -> (res: (Self, Option<Action>))
        ensures
            res.0.same_groups(self),
            (res.0.state(), res.1) == auto_load(self.state(), count),
    {
        let wants = self.page_wanted(count);
        let action = if !wants {
            Action::NoOp
        } else if self.events_source == EventsSource::Search {
            Action::CwSearchNextPage
        } else {
            Action::CwNextPage
        };
        let mut v = self;
        v.loading = v.loading || wants;
        (v, Some(action))
    }

    /// Whether the key scrolls towards the end (see `scrolls_to_end`).
    fn key_scrolls_to_end(key: &KeyEvent) -> (r: bool)
        ensures
            r == scrolls_to_end(*key),
    {
        key.down() || key.ctrl_char_is('d') || (key.char_is('G') && !key.up())
    }

    /// The events view after a scrolling key (see `events_scroll_step`).
    fn events_scroll_key(self, key: &KeyEvent) -> (res: (Self, Option<Action>))
        ensures
            res.0.same_groups(self),
            (res.0.state(), res.1) == events_scroll_step(self.state(), self.shown_events().len() as usize, *key),
    {
        let count = self.event_count();
        let moved = self.scroll_move_key(key, count);
        if Self::key_scrolls_to_end(key) {
            moved.auto_load_key(count)
        } else {
            (moved, Some(Action::NoOp))
        }
    }

    /// `r` on the events screen.
    fn events_refresh_key(self) -> (v: Self)
        ensures
            v.same_groups(self),
            v.state() == events_refresh(self.state()),
    {
        let mut v = self;
        v.events = Vec::new();
        v.next_token = None;
        v.event_scroll = 0;
        v.loading = true;
        v.error = None;
        v
    }

    /// Esc or `h` on the events screen.
    fn events_back_key(self) -> (v: Self)
        ensures
            v.same_groups(self),
            v.state() == back_step(CwState { pending_g: false, ..self.state() }).0,
    {
        let mut v = self;
        v.pending_g = false;
        v.go_back();
        v
    }

    /// A key on the events screen (see `events_step`).
    fn events_key(self, key: &KeyEvent) -> (res: (Self, Option<Action>))
        ensures
            res.0.same_groups(self),
            (res.0.state(), res.1) == events_step(self.state(), self.shown_events().len() as usize, *key),
    {
        if key.back() {
            (self.events_back_key(), Some(Action::NoOp))
        } else if key.char_is('/') {
            (self.filter_start_key(), Some(Action::NoOp))
        } else if key.char_is('r') {
            (self.events_refresh_key(), Some(Action::Refresh))
        } else {
            self.events_scroll_key(key)
        }
    }

    /// The number of rows of the list shown.
    fn list_count(&self) -> (r: usize)
        ensures
            r == (if self.screen == CwScreen::Groups {
                self.shown_group_names().len() as usize
            } else {
                self.shown_streams().len() as usize
            }),
    {
        if self.screen == CwScreen::Groups {
            self.filtered_groups().len()
        } else {
            self.filtered_streams().len()
        }
    }

    /// A cursor key on a list (see `list_nav_step`).
    fn list_nav_key(self, key: &KeyEvent, count: usize) -> (v: Self)
        ensures
            v.same_groups(self),
            v.state() == list_nav_step(self.state(), count, *key),
    {
        let groups = self.screen == CwScreen::Groups;
        let sel = if groups { self.group_selected } else { self.stream_selected };
        let pending = self.pending_g;
        let moved = cursor_after(sel, pending, count, key);
        let mut v = self;
        v.pending_g = key.char_is('g') && !pending;
        v.group_selected = if groups { moved } else { v.group_selected };
        v.stream_selected = if groups { v.stream_selected } else { moved };
        v
    }

    /// `s`, `S` or `x` on the group list (see `group_sort_step`).
    fn group_sort_key(self, key: &KeyEvent) -> (v: Self)
        ensures
            v.same_groups(self),
            v.state() == group_sort_step(self.state(), *key),
    {
        let col = group_col_key(self.group_sort_col, key);
        let dir = dir_key(self.group_sort_dir, key);
        let mut v = self;
        v.group_sort_col = col;
        v.group_sort_dir = dir;
        v.group_selected = 0;
        v
    }

    /// `s`, `S` or `x` on the stream list (see `stream_sort_step`).
    fn stream_sort_key(self, key: &KeyEvent) -> (v: Self)
        ensures
            v.same_groups(self),
            v.state() == stream_sort_step(self.state(), *key),
    {
        let col = stream_col_key(self.stream_sort_col, key);
        let dir = dir_key(self.stream_sort_dir, key);
        let mut v = self;
        v.stream_sort_col = col;
        v.stream_sort_dir = dir;
        v.stream_selected = 0;
        v
    }

    /// `s`, `S` or `x` on a list (see `list_sort_step`).
    fn list_sort_key(self, key: &KeyEvent) -> (v: Self)
        ensures
            v.same_groups(self),
            v.state() == list_sort_step(self.state(), *key),
    {
        if self.screen == CwScreen::Groups {
            self.group_sort_key(key)
        } else {
            self.stream_sort_key(key)
        }
    }

    /// The group picked by `f` (see `picked_group`).
    fn picked_active(&self, names: &Vec<String>) -> (r: String)
        requires
            name_texts(names@) == self.shown_group_names(),
        ensures
            r@ == picked_group(self.state(), self.shown_group_names()),
    {
        if self.screen == CwScreen::Groups && self.group_selected < names.len() {
            proof {
                assert(names@[self.group_selected as int]@ == name_texts(names@)[self.group_selected as int]);
            }
            copy_string(&names[self.group_selected])
        } else {
            copy_string(&self.active_group)
        }
    }

    /// The same screens with `g` as the active group.
    fn with_active_group(self, g: String) -> (v: Self)
        ensures
            v.same_groups(self),
            v.state() == (CwState { active_group: g@, ..self.state() }),
    {
        let mut v = self;
        v.active_group = g;
        v
    }

    /// `f` on a list (see `list_search_step`).
    fn list_search_key(self, names: &Vec<String>) -> (v: Self)
        requires
            name_texts(names@) == self.shown_group_names(),
        ensures
            v.same_groups(self),
            v.state() == list_search_step(self.state(), self.shown_group_names()),
    {
        let g = self.picked_active(names);
        let opens = !Self::text_empty(&g);
        let v = self.with_active_group(g);
        if opens {
            let mut w = v;
            w.open_search_popup();
            w
        } else {
            v
        }
    }

    /// Space on a list (see `list_mark_step`).
    fn list_mark_key(self, names: &Vec<String>) -> (v: Self)
        requires
            name_texts(names@) == self.shown_group_names(),
        ensures
            v.same_groups(self),
            v.state() == list_mark_step(self.state(), self.shown_group_names()),
    {
        if self.screen == CwScreen::Groups && self.group_selected < names.len() {
            let sel = self.group_selected;
            proof {
                assert(names@[sel as int]@ == name_texts(names@)[sel as int]);
            }
            let marked = names_toggled(&self.selected_groups, names[sel].as_str());
            let moved = move_down(sel, names.len());
            let mut v = self;
            v.selected_groups = marked;
            v.group_selected = moved;
            v
        } else {
            self
        }
    }

    /// The groups chosen by `i` (see `chosen_groups`).
    fn chosen_for_insights(&self, names: &Vec<String>) -> (r: Vec<String>)
        requires
            name_texts(names@) == self.shown_group_names(),
        ensures
            name_texts(r@) == chosen_groups(self.state(), self.shown_group_names()),
    {
        if self.screen != CwScreen::Groups {
            if !Self::text_empty(&self.active_group) {
                let c = copy_string(&self.active_group);
                let mut one: Vec<String> = Vec::new();
                one.push(c);
                proof {
                    assert(name_texts(one@) =~= seq![self.active_group@]);
                }
                one
            } else {
                let none: Vec<String> = Vec::new();
                proof {
                    assert(name_texts(none@) =~= Seq::<Seq<char>>::empty());
                }
                none
            }
        } else if self.selected_groups.len() > 0 {
            first_fifty_names(&distinct_copy(&self.selected_groups))
        } else {
            first_fifty_names(names)
        }
    }

    /// `i` on a list (see `list_insights_step`).
    fn list_insights_key(self, names: &Vec<String>) -> (v: Self)
        requires
            name_texts(names@) == self.shown_group_names(),
        ensures
            v.same_groups(self),
            v.state() == list_insights_step(self.state(), self.shown_group_names()),
    {
        let chosen = self.chosen_for_insights(names);
        if chosen.len() > 0 {
            let mut v = self;
            v.insights_groups = chosen;
            v.open_insights_popup();
            v
        } else {
            self
        }
    }

    /// Esc or `h` on a list (see `list_back_step`).
    fn list_back_key(self) -> (res: (Self, Option<Action>))
        ensures
            res.0.same_groups(self),
            (res.0.state(), res.1) == list_back_step(self.state()),
    {
        if self.selected_groups.len() > 0 && self.screen == CwScreen::Groups {
            let mut v = self;
            v.selected_groups = Vec::new();
            proof {
                assert(name_texts(v.selected_groups@) =~= Seq::<Seq<char>>::empty());
            }
            (v, Some(Action::NoOp))
        } else {
            let mut v = self;
            let went = v.go_back();
            (v, if went { Some(Action::ServiceBack) } else { None })
        }
    }

    /// `r` on a list.
    fn list_refresh_key(self) -> (v: Self)
        ensures
            v.same_groups(self),
            v.state() == (CwState { loading: true, error: None, ..self.state() }),
    {
        let mut v = self;
        v.loading = true;
        v.error = None;
        v
    }

    /// `/` on a list or the events.
    fn filter_start_key(self) -> (v: Self)
        ensures
            v.same_groups(self),
            v.state() == start_filter(self.state()),
    {
        let mut v = self;
        v.filtering = true;
        clear_string(&mut v.filter);
        v
    }

    /// Any other key on a list ends a pending `g`.
    fn list_other_key(self) -> (v: Self)
        ensures
            v.same_groups(self),
            v.state() == (CwState { pending_g: false, ..self.state() }),
    {
        let mut v = self;
        v.pending_g = false;
        v
    }

    /// A key on a list that needs no names (see `list_misc_step`).
    fn list_misc_key(self, key: &KeyEvent) -> (res: (Self, Option<Action>))
        ensures
            res.0.same_groups(self),
            (res.0.state(), res.1) == list_misc_step(self.state(), *key),
    {
        if key.char_is('r') {
            (self.list_refresh_key(), Some(Action::Refresh))
        } else if key.char_is('/') {
            (self.filter_start_key(), Some(Action::NoOp))
        } else if key.code == KeyCode::Enter {
            (self, Some(Action::ServiceEnter))
        } else if key.back() {
            self.list_back_key()
        } else {
            (self.list_other_key(), Some(Action::NoOp))
        }
    }

    /// `f`, Space or `i` on a list (see `list_names_step`).
    fn list_names_key(self, key: &KeyEvent) -> (v: Self)
        ensures
            v.same_groups(self),
            v.state() == list_names_step(self.state(), self.shown_group_names(), *key),
    {
        let names = self.filtered_group_names();
        if key.char_is('f') {
            self.list_search_key(&names)
        } else if key.char_is(' ') {
            self.list_mark_key(&names)
        } else {
            self.list_insights_key(&names)
        }
    }

    /// A key on the group or stream list (see `list_step`).
    fn list_key(self, key: &KeyEvent) -> (res: (Self, Option<Action>))
        ensures
            res.0.same_groups(self),
            (res.0.state(), res.1) == list_step(
                self.state(),
                self.shown_group_names(),
                self.shown_streams().len() as usize,
                *key,
            ),
    {
        if key_is_list_nav(key) {
            let count = self.list_count();
            (self.list_nav_key(key, count), Some(Action::NoOp))
        } else if key.char_is('s') || key.char_is('S') || key.char_is('x') {
            (self.list_sort_key(key), Some(Action::NoOp))
        } else if key.char_is('f') || key.char_is(' ') || key.char_is('i') {
            (self.list_names_key(key), Some(Action::NoOp))
        } else {
            self.list_misc_key(key)
        }
    }

    /// What a key does to the screens (see `key_step`), the new state with
    /// the action left for the application.
    pub fn step_key(self, key: &KeyEvent) -> (res: (Self, Option<Action>))
        ensures
            res.0.same_groups(self),
            (res.0.state(), res.1) == key_step(
                self.state(),
                self.shown_group_names(),
                self.shown_streams().len() as usize,
                self.shown_events().len() as usize,
                *key,
            ),
    {
        if self.search_popup_open {
            self.search_popup_key(key)
        } else if self.insights_popup_open {
            self.insights_popup_key(key)
        } else if self.screen == CwScreen::Events {
            if self.filtering {
                let mut v = self;
                v.filter_key(key);
                (v, Some(Action::NoOp))
            } else {
                self.events_key(key)
            }
        } else if self.filtering {
            let mut v = self;
            v.filter_key(key);
            (v, Some(Action::NoOp))
        } else {
            self.list_key(key)
        }
    }

    /// Handles a key (see `key_step`); the action is what is left for the
    /// application to do.
    pub fn handle_key(&mut self, key: KeyEvent) -> (r: Option<Action>)
        ensures
            final(self).same_groups(*old(self)),
            (final(self).state(), r) == key_step(
                old(self).state(),
                old(self).shown_group_names(),
                old(self).shown_streams().len() as usize,
                old(self).shown_events().len() as usize,
                key,
            ),
    {
        let mut current = CloudWatchView::default();
        std::mem::swap(&mut current, self);
        let (next, r) = current.step_key(&key);
        *self = next;
        r
    }
}

} // verus!
