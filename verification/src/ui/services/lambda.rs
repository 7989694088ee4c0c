//! The Lambda screens: the function list and one function's configuration.
use vstd::prelude::*;
use crate::app::Action;
use crate::aws::lambda::{FunctionDetail, FunctionInfo};
use crate::input::{is_back, is_char, is_ctrl_char, is_down, is_up, KeyCode, KeyEvent};
use crate::nav::{
    detail_scroll_key, detail_scroll_step, half_page_down, jump_last, move_down, move_half_page_down,
    move_half_page_up, move_last, move_up, sat_sub_u16, sat_sub_usize, step_down, step_up,
};
use crate::order::{
    arrange, arranged, entry_vals, lemma_positions_where, positions_where, sort_order, stable_order,
    EntryVal, KeyVal, SortEntry, SortKey,
};
use crate::text::{
    chars_of, clear_string, contains_chars, lower_chars, lowercase, owned, pop_char, push_char,
    push_str, seq_contains,
};
use crate::ui::services::{flip, SortDir};

verus! {

/// Which Lambda screen is shown.
#[derive(Debug, Clone, Copy, PartialEq, Eq, Structural)]
pub enum LambdaScreen {
    Functions,
    Detail,
}

/// The column the function list is sorted by.
#[derive(Debug, Clone, Copy, PartialEq, Eq, Structural)]
pub enum SortColumn {
    Name,
    Runtime,
    Modified,
    Memory,
    Timeout,
}

/// The next sort column (`s`).
pub open spec fn next_column(c: SortColumn) -> SortColumn {
    match c {
        SortColumn::Name => SortColumn::Runtime,
        SortColumn::Runtime => SortColumn::Modified,
        SortColumn::Modified => SortColumn::Memory,
        SortColumn::Memory => SortColumn::Timeout,
        SortColumn::Timeout => SortColumn::Name,
    }
}

/// The previous sort column (`S`).
pub open spec fn prev_column(c: SortColumn) -> SortColumn {
    match c {
        SortColumn::Name => SortColumn::Timeout,
        SortColumn::Runtime => SortColumn::Name,
        SortColumn::Modified => SortColumn::Runtime,
        SortColumn::Memory => SortColumn::Modified,
        SortColumn::Timeout => SortColumn::Memory,
    }
}

/// The state of the Lambda screens.
#[derive(Debug)]
pub struct LambdaView {
    pub screen: LambdaScreen,
    pub functions: Vec<FunctionInfo>,
    pub detail: Option<FunctionDetail>,
    pub detail_scroll: u16,
    /// The cursor, as a position in the shown (filtered, sorted) list.
    pub selected: usize,
    pub loading: bool,
    pub error: Option<String>,
    pub filter: String,
    pub filtering: bool,
    pub pending_g: bool,
    /// The largest useful scroll offset of the detail screen, as last drawn.
    pub detail_total_lines: u16,
    pub sort_column: SortColumn,
    pub sort_dir: SortDir,
}

/// Everything of the Lambda state but the function list, as plain values.
pub ghost struct LambdaState {
    pub screen: LambdaScreen,
    pub detail: Option<FunctionDetail>,
    pub detail_scroll: u16,
    pub selected: usize,
    pub loading: bool,
    pub error: Option<String>,
    pub filter: Seq<char>,
    pub filtering: bool,
    pub pending_g: bool,
    pub detail_total_lines: u16,
    pub sort_column: SortColumn,
    pub sort_dir: SortDir,
}

/// Esc on a filter or a screen: a filter being typed is dropped (and that is
/// all); otherwise the filter is dropped and the detail screen goes back to
/// the list. The flag tells whether anything was left.
pub open spec fn back_step(m: LambdaState) -> (LambdaState, bool) {
    if m.filtering {
        (LambdaState { filtering: false, filter: Seq::empty(), ..m }, true)
    } else {
        let m1 = LambdaState { filtering: false, filter: Seq::empty(), ..m };
        match m.screen {
            LambdaScreen::Detail => (
                LambdaState { screen: LambdaScreen::Functions, detail: None, loading: false, ..m1 },
                true,
            ),
            LambdaScreen::Functions => (m1, false),
        }
    }
}

/// A key typed into the filter: Esc drops the filter, Enter keeps it and
/// stops typing, Backspace and characters edit it (and put the cursor on the
/// first row); other keys do nothing.
pub open spec fn filter_step(m: LambdaState, k: KeyEvent) -> LambdaState {
    match k.code {
        KeyCode::Esc => LambdaState { filtering: false, filter: Seq::empty(), ..m },
        KeyCode::Enter => LambdaState { filtering: false, ..m },
        KeyCode::Backspace => LambdaState {
            filter: if m.filter.len() > 0 {
                m.filter.drop_last()
            } else {
                m.filter
            },
            selected: 0,
            ..m
        },
        KeyCode::Char(c) => LambdaState { filter: m.filter.push(c), selected: 0, ..m },
        _ => m,
    }
}

/// What a key does to the Lambda screens, given the number of rows the list
/// shows; the action is what is left for the application to do.
pub open spec fn key_step(m: LambdaState, count: usize, k: KeyEvent) -> (LambdaState, Option<Action>) {
    if m.screen == LambdaScreen::Detail {
        if is_back(k) {
            (back_step(LambdaState { pending_g: false, ..m }).0, Some(Action::NoOp))
        } else {
            let (s, p) = detail_scroll_step(m.detail_scroll, m.pending_g, m.detail_total_lines, k);
            (LambdaState { detail_scroll: s, pending_g: p, ..m }, Some(Action::NoOp))
        }
    } else if m.filtering {
        (filter_step(m, k), Some(Action::NoOp))
    } else if is_down(k) {
        (LambdaState { pending_g: false, selected: step_down(m.selected, count), ..m }, Some(Action::NoOp))
    } else if is_up(k) {
        (LambdaState { pending_g: false, selected: step_up(m.selected), ..m }, Some(Action::NoOp))
    } else if is_char(k, 'g') {
        if m.pending_g {
            (LambdaState { selected: 0, pending_g: false, ..m }, Some(Action::NoOp))
        } else {
            (LambdaState { pending_g: true, ..m }, Some(Action::NoOp))
        }
    } else if is_char(k, 'G') {
        (LambdaState { pending_g: false, selected: jump_last(m.selected, count), ..m }, Some(Action::NoOp))
    } else if is_ctrl_char(k, 'd') {
        (LambdaState { pending_g: false, selected: half_page_down(m.selected, count), ..m }, Some(Action::NoOp))
    } else if is_ctrl_char(k, 'u') {
        (LambdaState { pending_g: false, selected: sat_sub_usize(m.selected, 20), ..m }, Some(Action::NoOp))
    } else if is_char(k, 's') {
        (LambdaState { sort_column: next_column(m.sort_column), selected: 0, ..m }, Some(Action::NoOp))
    } else if is_char(k, 'S') {
        (LambdaState { sort_column: prev_column(m.sort_column), selected: 0, ..m }, Some(Action::NoOp))
    } else if is_char(k, 'x') {
        (LambdaState { sort_dir: flip(m.sort_dir), selected: 0, ..m }, Some(Action::NoOp))
    } else if is_char(k, 'r') {
        if m.error is Some {
            (LambdaState { loading: true, error: None, ..m }, Some(Action::ServiceBack))
        } else {
            (m, Some(Action::NoOp))
        }
    } else if is_char(k, '/') {
        (LambdaState { filtering: true, filter: Seq::empty(), ..m }, Some(Action::NoOp))
    } else if k.code == KeyCode::Enter {
        (m, Some(Action::ServiceEnter))
    } else if is_back(k) {
        let (m2, went) = back_step(m);
        (m2, if went { Some(Action::ServiceBack) } else { None })
    } else {
        (m, Some(Action::NoOp))
    }
}

/// What a key does to the Lambda view: the functions stay, and the rest
/// of the view and the answer are as `key_step` says, given the number of
/// rows listed before the key.
pub open spec fn key_handled(before: LambdaView, key: KeyEvent, after: LambdaView, answer: Option<Action>) -> bool {
    &&& after.functions == before.functions
    &&& (after.state(), answer) == key_step(before.state(), before.shown().len() as usize, key)
}

/// The state the screens start in: the function list, loading, sorted by
/// name ascending.
pub open spec fn initial_state() -> LambdaState {
    LambdaState {
        screen: LambdaScreen::Functions,
        detail: None,
        detail_scroll: 0,
        selected: 0,
        loading: true,
        error: None,
        filter: Seq::empty(),
        filtering: false,
        pending_g: false,
        detail_total_lines: 0,
        sort_column: SortColumn::Name,
        sort_dir: SortDir::Asc,
    }
}

impl Default for LambdaView {
    fn default() -> (v: Self)
        ensures
            v.state() == initial_state(),
            v.functions@.len() == 0,
    {
        LambdaView {
            screen: LambdaScreen::Functions,
            functions: Vec::new(),
            detail: None,
            detail_scroll: 0,
            selected: 0,
            loading: true,
            error: None,
            filter: String::new(),
            filtering: false,
            pending_g: false,
            detail_total_lines: 0,
            sort_column: SortColumn::Name,
            sort_dir: SortDir::Asc,
        }
    }
}

impl LambdaView {
    /// The state but the function list.
    pub open spec fn state(self) -> LambdaState {
        LambdaState {
            screen: self.screen,
            detail: self.detail,
            detail_scroll: self.detail_scroll,
            selected: self.selected,
            loading: self.loading,
            error: self.error,
            filter: self.filter@,
            filtering: self.filtering,
            pending_g: self.pending_g,
            detail_total_lines: self.detail_total_lines,
            sort_column: self.sort_column,
            sort_dir: self.sort_dir,
        }
    }

    /// Function `i` passes the filter: the filter is empty, or its lowercase
    /// form occurs in the lowercase name, runtime or description.
    pub open spec fn keeps(self, i: int) -> bool {
        let f = lowercase(self.filter@);
        let func = self.functions@[i];
        self.filter@.len() == 0 || seq_contains(lowercase(func.name@), f) || seq_contains(
            lowercase(func.runtime@),
            f,
        ) || seq_contains(lowercase(func.description@), f)
    }

    /// The positions of the functions that pass the filter.
    pub open spec fn matching(self) -> Seq<usize> {
        positions_where(self.functions@.len(), |i: int| self.keeps(i))
    }

    /// What function `i` is sorted by in the current column: the lowercase
    /// name, the runtime, the modification time as text, the memory or the
    /// timeout.
    pub open spec fn key_of(self, i: int) -> KeyVal {
        let func = self.functions@[i];
        match self.sort_column {
            SortColumn::Name => KeyVal::Text(lowercase(func.name@)),
            SortColumn::Runtime => KeyVal::Text(func.runtime@),
            SortColumn::Modified => KeyVal::Text(func.last_modified@),
            SortColumn::Memory => KeyVal::Int(func.memory as int),
            SortColumn::Timeout => KeyVal::Int(func.timeout as int),
        }
    }

    /// The rows to sort: the matching functions by their keys.
    pub open spec fn entries(self) -> Seq<EntryVal> {
        self.matching().map_values(|i: usize| EntryVal { group: 0, key: self.key_of(i as int) })
    }

    /// The positions of the functions the list shows, in order: those that
    /// pass the filter, sorted by the current column (descending when asked),
    /// ties in service order.
    pub open spec fn shown(self) -> Seq<usize> {
        arranged(self.matching(), stable_order(self.entries(), self.sort_dir == SortDir::Desc))
    }

    /// Replaces the function list after a load.
    pub fn set_functions(&mut self, functions: Vec<FunctionInfo>)
        ensures
            final(self).functions == functions,
            final(self).state() == (LambdaState { loading: false, error: None, selected: 0, ..old(self).state() }),
    {
        self.functions = functions;
        self.loading = false;
        self.error = None;
        self.selected = 0;
    }

    /// Records a failed load.
    pub fn set_error(&mut self, error: String)
        ensures
            final(self).functions == old(self).functions,
            final(self).state() == (LambdaState { error: Some(error), loading: false, ..old(self).state() }),
    {
        self.error = Some(error);
        self.loading = false;
    }

    /// Opens the detail screen, waiting for the configuration.
    pub fn enter_detail(&mut self)
        ensures
            final(self).functions == old(self).functions,
            final(self).state() == (LambdaState {
                screen: LambdaScreen::Detail,
                detail: None,
                detail_scroll: 0,
                loading: true,
                filter: Seq::empty(),
                filtering: false,
                ..old(self).state()
            }),
    {
        self.screen = LambdaScreen::Detail;
        self.detail = None;
        self.detail_scroll = 0;
        self.loading = true;
        clear_string(&mut self.filter);
        self.filtering = false;
    }

    /// Shows a loaded configuration.
    pub fn set_detail(&mut self, detail: FunctionDetail)
        ensures
            final(self).functions == old(self).functions,
            final(self).state() == (LambdaState { detail: Some(detail), loading: false, error: None, ..old(self).state() }),
    {
        self.detail = Some(detail);
        self.loading = false;
        self.error = None;
    }

    /// Esc: drops a filter being typed, or goes back from the detail screen;
    /// tells whether anything was left (see `back_step`).
    pub fn go_back(&mut self) -> (r: bool)
        ensures
            final(self).functions == old(self).functions,
            (final(self).state(), r) == back_step(old(self).state()),
    {
        if self.filtering {
            self.filtering = false;
            clear_string(&mut self.filter);
            return true;
        }
        clear_string(&mut self.filter);
        self.filtering = false;
        match self.screen {
            LambdaScreen::Detail => {
                self.screen = LambdaScreen::Functions;
                self.detail = None;
                self.loading = false;
                true
            },
            LambdaScreen::Functions => false,
        }
    }

    /// The function under the cursor, if the cursor is on a shown row.
    pub fn selected_function(&self) -> (r: Option<&FunctionInfo>)
        ensures
            self.selected < self.shown().len() ==> r == Some(&self.functions@[self.shown()[self.selected as int] as int]),
            self.selected >= self.shown().len() ==> r is None,
    {
        let shown = self.filtered_functions();
        if self.selected < shown.len() {
            Some(&self.functions[shown[self.selected]])
        } else {
            None
        }
    }

    /// Whether keys go to the filter.
    pub fn is_editing(&self) -> (r: bool)
        ensures
            r == self.filtering,
    {
        self.filtering
    }

    /// Whether the function list still has to be loaded.
    pub fn needs_function_load(&self) -> (r: bool)
        ensures
            r == (self.screen == LambdaScreen::Functions && self.loading),
    {
        self.screen == LambdaScreen::Functions && self.loading
    }

    /// `"functions"` or `"detail"`.
    pub fn screen_type(&self) -> (r: &'static str)
        ensures
            r@ == (if self.screen == LambdaScreen::Functions { "functions"@ } else { "detail"@ }),
    {
        match self.screen {
            LambdaScreen::Functions => "functions",
            LambdaScreen::Detail => "detail",
        }
    }

    /// The title of the pane: `Lambda > Functions`, or `Lambda > ` and the
    /// function's name (`...` while it loads).
    pub fn breadcrumb(&self) -> (r: String)
        ensures
            r@ == (match self.screen {
                LambdaScreen::Functions => "Lambda > Functions"@,
                LambdaScreen::Detail => "Lambda > "@ + match self.detail {
                    Some(d) => d.name@,
                    None => "..."@,
                },
            }),
    {
        match self.screen {
            LambdaScreen::Functions => owned("Lambda > Functions"),
            LambdaScreen::Detail => {
                let mut r = owned("Lambda > ");
                match &self.detail {
                    Some(d) => push_str(&mut r, d.name.as_str()),
                    None => push_str(&mut r, "..."),
                }
                r
            },
        }
    }

    fn function_keeps(&self, i: usize, f: &Vec<char>) -> (r: bool)
        requires
            i < self.functions@.len(),
            self.filter@.len() > 0,
            f@ == lowercase(self.filter@),
        ensures
            r == self.keeps(i as int),
    {
        let func = &self.functions[i];
        contains_chars(&lower_chars(func.name.as_str()), f) || contains_chars(
            &lower_chars(func.runtime.as_str()),
            f,
        ) || contains_chars(&lower_chars(func.description.as_str()), f)
    }

    fn matching_positions(&self) -> (r: Vec<usize>)
        ensures
            r@ == self.matching(),
    {
        let n = self.functions.len();
        let empty = self.filter.as_str().is_empty();
        let f = lower_chars(self.filter.as_str());
        let ghost keep = |i: int| self.keeps(i);
        let mut r: Vec<usize> = Vec::new();
        let mut i: usize = 0;
        while i < n
            invariant
                n == self.functions@.len(),
                empty == (self.filter@.len() == 0),
                f@ == lowercase(self.filter@),
                keep == (|i: int| self.keeps(i)),
                0 <= i <= n,
                r@ == positions_where(i as nat, keep),
            decreases n - i,
        {
            if empty || self.function_keeps(i, &f) {
                r.push(i);
            }
            i = i + 1;
        }
        r
    }

    fn sort_key(&self, i: usize) -> (k: SortKey)
        requires
            i < self.functions@.len(),
        ensures
            k@ == self.key_of(i as int),
    {
        let func = &self.functions[i];
        match self.sort_column {
            SortColumn::Name => SortKey::Text(lower_chars(func.name.as_str())),
            SortColumn::Runtime => SortKey::Text(chars_of(func.runtime.as_str())),
            SortColumn::Modified => SortKey::Text(chars_of(func.last_modified.as_str())),
            SortColumn::Memory => SortKey::Int(func.memory as i64),
            SortColumn::Timeout => SortKey::Int(func.timeout as i64),
        }
    }

    /// The positions of the functions the list shows, in order.
    pub fn filtered_functions(&self) -> (r: Vec<usize>)
        ensures
            r@ == self.shown(),
            forall|p: int| 0 <= p < r@.len() ==> #[trigger] r@[p] < self.functions@.len(),
    {
        let pos = self.matching_positions();
        let _total = self.functions.len();
        proof {
            lemma_positions_where(self.functions@.len(), |i: int| self.keeps(i));
        }
        let m = pos.len();
        let mut entries: Vec<SortEntry> = Vec::new();
        let mut p: usize = 0;
        while p < m
            invariant
                m == pos@.len(),
                pos@ == self.matching(),
                forall|t: int| 0 <= t < m ==> #[trigger] pos@[t] < self.functions@.len(),
                0 <= p <= m,
                entries@.len() == p,
                forall|t: int| 0 <= t < p ==> #[trigger] entries@[t]@ == (EntryVal { group: 0, key: self.key_of(pos@[t] as int) }),
            decreases m - p,
        {
            let key = self.sort_key(pos[p]);
            entries.push(SortEntry { group: 0, key });
            p = p + 1;
        }
        proof {
            assert(entry_vals(entries@) =~= self.entries());
        }
        let order = sort_order(&entries, self.sort_dir == SortDir::Desc);
        let r = arrange(&pos, &order);
        proof {
            assert forall|t: int| 0 <= t < r@.len() implies #[trigger] r@[t] < self.functions@.len() by {
                assert(order@[t] < pos@.len());
            }
        }
        r
    }

    /// The number of rows the list shows.
    pub fn item_count(&self) -> (r: usize)
        ensures
            r == self.shown().len(),
    {
        self.filtered_functions().len()
    }

    fn filter_key(&mut self, key: &KeyEvent)
        requires
            old(self).filtering,
        ensures
            final(self).functions == old(self).functions,
            final(self).state() == filter_step(old(self).state(), *key),
    {
        match key.code {
            KeyCode::Esc => {
                self.filtering = false;
                clear_string(&mut self.filter);
            },
            KeyCode::Enter => {
                self.filtering = false;
            },
            KeyCode::Backspace => {
                pop_char(&mut self.filter);
                self.selected = 0;
            },
            KeyCode::Char(c) => {
                push_char(&mut self.filter, c);
                self.selected = 0;
            },
            _ => {},
        }
    }

    /// Handles a key (see `key_step`); the action is what is left for the
    /// application to do.
    pub fn handle_key(&mut self, key: KeyEvent) -> (r: Option<Action>)
        ensures
            key_handled(*old(self), key, *final(self), r),
    {
        let ghost count = self.shown().len() as usize;
        if self.screen == LambdaScreen::Detail {
            if key.back() {
                self.pending_g = false;
                self.go_back();
                return Some(Action::NoOp);
            }
            let (s, p) = detail_scroll_key(self.detail_scroll, self.pending_g, self.detail_total_lines, &key);
            self.detail_scroll = s;
            self.pending_g = p;
            return Some(Action::NoOp);
        }
        if self.filtering {
            self.filter_key(&key);
            return Some(Action::NoOp);
        }
        if key.down() {
            let count = self.item_count();
            self.pending_g = false;
            self.selected = move_down(self.selected, count);
        } else if key.up() {
            self.pending_g = false;
            self.selected = move_up(self.selected);
        } else if key.char_is('g') {
            if self.pending_g {
                self.selected = 0;
                self.pending_g = false;
            } else {
                self.pending_g = true;
            }
            return Some(Action::NoOp);
        } else if key.char_is('G') {
            let count = self.item_count();
            self.pending_g = false;
            self.selected = move_last(self.selected, count);
        } else if key.ctrl_char_is('d') {
            let count = self.item_count();
            self.pending_g = false;
            self.selected = move_half_page_down(self.selected, count);
        } else if key.ctrl_char_is('u') {
            self.pending_g = false;
            self.selected = move_half_page_up(self.selected);
        } else if key.char_is('s') {
            self.sort_column = match self.sort_column {
                SortColumn::Name => SortColumn::Runtime,
                SortColumn::Runtime => SortColumn::Modified,
                SortColumn::Modified => SortColumn::Memory,
                SortColumn::Memory => SortColumn::Timeout,
                SortColumn::Timeout => SortColumn::Name,
            };
            self.selected = 0;
        } else if key.char_is('S') {
            self.sort_column = match self.sort_column {
                SortColumn::Name => SortColumn::Timeout,
                SortColumn::Runtime => SortColumn::Name,
                SortColumn::Modified => SortColumn::Runtime,
                SortColumn::Memory => SortColumn::Modified,
                SortColumn::Timeout => SortColumn::Memory,
            };
            self.selected = 0;
        } else if key.char_is('x') {
            self.sort_dir = self.sort_dir.toggle();
            self.selected = 0;
        } else if key.char_is('r') {
            if self.error.is_some() {
                self.loading = true;
                self.error = None;
                return Some(Action::ServiceBack);
            }
        } else if key.char_is('/') {
            self.filtering = true;
            clear_string(&mut self.filter);
        } else if key.code == KeyCode::Enter {
            return Some(Action::ServiceEnter);
        } else if key.back() {
            if self.go_back() {
                return Some(Action::ServiceBack);
            } else {
                return None;
            }
        }
        Some(Action::NoOp)
    }

    /// Records how tall the drawn detail is: the largest useful scroll offset
    /// is the wrapped line count less the visible height, and the scroll
    /// offset is kept within it.
    pub fn set_detail_extent(&mut self, wrapped_lines: u16, height: u16)
        ensures
            final(self).functions == old(self).functions,
            final(self).state() == (LambdaState {
                detail_total_lines: sat_sub_u16(wrapped_lines, height as int),
                detail_scroll: if old(self).detail_scroll > sat_sub_u16(wrapped_lines, height as int) {
                    sat_sub_u16(wrapped_lines, height as int)
                } else {
                    old(self).detail_scroll
                },
                ..old(self).state()
            }),
    {
        let max_scroll = if wrapped_lines >= height {
            wrapped_lines - height
        } else {
            0
        };
        self.detail_total_lines = max_scroll;
        if self.detail_scroll > max_scroll {
            self.detail_scroll = max_scroll;
        }
    }
}

} // verus!
