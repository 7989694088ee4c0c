//! The Secrets Manager screens: the secret list and one secret's detail.
use vstd::prelude::*;
use crate::app::Action;
use crate::aws::secrets::{SecretDetail, SecretInfo};
use crate::input::{is_back, is_char, is_ctrl_char, is_down, is_up, KeyCode, KeyEvent};
use crate::nav::{
    detail_scroll_key, detail_scroll_step, half_page_down, jump_last, move_down, move_half_page_down,
    move_half_page_up, move_last, move_up, sat_sub_u16, sat_sub_usize, step_down, step_up,
};
use crate::order::{
    arrange, arranged, entry_vals, lemma_positions_where, positions_where, sort_order, stable_order,
    EntryVal, KeyVal, SortEntry, SortKey,
};
use crate::text::{
    chars_of, clear_string, contains_chars, lines_of, lower_chars, lowercase, owned, pop_char, push_char,
    push_str, seq_contains, text_lines, texts,
};
use crate::ui::services::{flip, SortDir};

verus! {

/// Which Secrets Manager screen is shown.
#[derive(Debug, Clone, Copy, PartialEq, Eq, Structural)]
pub enum SecretsScreen {
    List,
    Detail,
}

/// The column the secret list is sorted by.
#[derive(Debug, Clone, Copy, PartialEq, Eq, Structural)]
pub enum SortColumn {
    Name,
    LastAccessed,
    LastChanged,
}

/// The next sort column (`s`).
pub open spec fn next_column(c: SortColumn) -> SortColumn {
    match c {
        SortColumn::Name => SortColumn::LastChanged,
        SortColumn::LastChanged => SortColumn::LastAccessed,
        SortColumn::LastAccessed => SortColumn::Name,
    }
}

/// The previous sort column (`S`).
pub open spec fn prev_column(c: SortColumn) -> SortColumn {
    match c {
        SortColumn::Name => SortColumn::LastAccessed,
        SortColumn::LastChanged => SortColumn::Name,
        SortColumn::LastAccessed => SortColumn::LastChanged,
    }
}

/// The state of the Secrets Manager screens.
#[derive(Debug)]
pub struct SecretsManagerView {
    pub screen: SecretsScreen,
    pub secrets: Vec<SecretInfo>,
    pub detail: Option<SecretDetail>,
    pub detail_scroll: u16,
    /// The cursor, as a position in the shown (filtered, sorted) list.
    pub selected: usize,
    pub loading: bool,
    pub error: Option<String>,
    pub filter: String,
    pub filtering: bool,
    pub pending_g: bool,
    /// The largest useful scroll offset of the detail screen, as last drawn.
    pub detail_total_lines: u16,
    pub sort_column: SortColumn,
    pub sort_dir: SortDir,
    /// Whether the secret's value is shown in the clear.
    pub show_secret: bool,
}

/// Everything of the Secrets Manager state but the secret list, as plain values.
pub ghost struct SecretsState {
    pub screen: SecretsScreen,
    pub detail: Option<SecretDetail>,
    pub detail_scroll: u16,
    pub selected: usize,
    pub loading: bool,
    pub error: Option<String>,
    pub filter: Seq<char>,
    pub filtering: bool,
    pub pending_g: bool,
    pub detail_total_lines: u16,
    pub sort_column: SortColumn,
    pub sort_dir: SortDir,
    pub show_secret: bool,
}

/// Esc on a filter or a screen: a filter being typed is dropped (and that is
/// all); otherwise the filter is dropped and the detail screen goes back to
/// the list. The flag tells whether anything was left.
pub open spec fn back_step(m: SecretsState) -> (SecretsState, bool) {
    if m.filtering {
        (SecretsState { filtering: false, filter: Seq::empty(), ..m }, true)
    } else {
        let m1 = SecretsState { filtering: false, filter: Seq::empty(), ..m };
        match m.screen {
            SecretsScreen::Detail => (
                SecretsState { screen: SecretsScreen::List, detail: None, show_secret: false, loading: false, ..m1 },
                true,
            ),
            SecretsScreen::List => (m1, false),
        }
    }
}

/// A key typed into the filter: Esc drops the filter, Enter keeps it and
/// stops typing, Backspace and characters edit it (and put the cursor on the
/// first row); other keys do nothing.
pub open spec fn filter_step(m: SecretsState, k: KeyEvent) -> SecretsState {
    match k.code {
        KeyCode::Esc => SecretsState { filtering: false, filter: Seq::empty(), ..m },
        KeyCode::Enter => SecretsState { filtering: false, ..m },
        KeyCode::Backspace => SecretsState {
            filter: if m.filter.len() > 0 {
                m.filter.drop_last()
            } else {
                m.filter
            },
            selected: 0,
            ..m
        },
        KeyCode::Char(c) => SecretsState { filter: m.filter.push(c), selected: 0, ..m },
        _ => m,
    }
}

/// What a key does to the Secrets Manager screens, given the number of rows the list
/// shows; the action is what is left for the application to do.
pub open spec fn key_step(m: SecretsState, count: usize, k: KeyEvent) -> (SecretsState, Option<Action>) {
    if m.screen == SecretsScreen::Detail {
        if is_back(k) {
            (back_step(SecretsState { pending_g: false, ..m }).0, Some(Action::NoOp))
        } else if is_char(k, 's') {
            (SecretsState { pending_g: false, show_secret: !m.show_secret, ..m }, Some(Action::NoOp))
        } else {
            let (s, p) = detail_scroll_step(m.detail_scroll, m.pending_g, m.detail_total_lines, k);
            (SecretsState { detail_scroll: s, pending_g: p, ..m }, Some(Action::NoOp))
        }
    } else if m.filtering {
        (filter_step(m, k), Some(Action::NoOp))
    } else if is_down(k) {
        (SecretsState { pending_g: false, selected: step_down(m.selected, count), ..m }, Some(Action::NoOp))
    } else if is_up(k) {
        (SecretsState { pending_g: false, selected: step_up(m.selected), ..m }, Some(Action::NoOp))
    } else if is_char(k, 'g') {
        if m.pending_g {
            (SecretsState { selected: 0, pending_g: false, ..m }, Some(Action::NoOp))
        } else {
            (SecretsState { pending_g: true, ..m }, Some(Action::NoOp))
        }
    } else if is_char(k, 'G') {
        (SecretsState { pending_g: false, selected: jump_last(m.selected, count), ..m }, Some(Action::NoOp))
    } else if is_ctrl_char(k, 'd') {
        (SecretsState { pending_g: false, selected: half_page_down(m.selected, count), ..m }, Some(Action::NoOp))
    } else if is_ctrl_char(k, 'u') {
        (SecretsState { pending_g: false, selected: sat_sub_usize(m.selected, 20), ..m }, Some(Action::NoOp))
    } else if is_char(k, 's') {
        (SecretsState { sort_column: next_column(m.sort_column), selected: 0, ..m }, Some(Action::NoOp))
    } else if is_char(k, 'S') {
        (SecretsState { sort_column: prev_column(m.sort_column), selected: 0, ..m }, Some(Action::NoOp))
    } else if is_char(k, 'x') {
        (SecretsState { sort_dir: flip(m.sort_dir), selected: 0, ..m }, Some(Action::NoOp))
    } else if is_char(k, 'r') {
        if m.error is Some {
            (SecretsState { loading: true, error: None, ..m }, Some(Action::ServiceBack))
        } else {
            (m, Some(Action::NoOp))
        }
    } else if is_char(k, '/') {
        (SecretsState { filtering: true, filter: Seq::empty(), ..m }, Some(Action::NoOp))
    } else if k.code == KeyCode::Enter {
        (m, Some(Action::ServiceEnter))
    } else if is_back(k) {
        let (m2, went) = back_step(m);
        (m2, if went { Some(Action::ServiceBack) } else { None })
    } else {
        (m, Some(Action::NoOp))
    }
}

/// The state the screens start in: the secret list, loading, sorted by
/// name ascending.
pub open spec fn initial_state() -> SecretsState {
    SecretsState {
        screen: SecretsScreen::List,
        detail: None,
        detail_scroll: 0,
        selected: 0,
        loading: true,
        error: None,
        filter: Seq::empty(),
        filtering: false,
        pending_g: false,
        detail_total_lines: 0,
        sort_column: SortColumn::Name,
        sort_dir: SortDir::Asc,
        show_secret: false,
    }
}

impl Default for SecretsManagerView {
    fn default() -> (v: Self)
        ensures
            v.state() == initial_state(),
            v.secrets@.len() == 0,
    {
        SecretsManagerView {
            screen: SecretsScreen::List,
            secrets: Vec::new(),
            detail: None,
            detail_scroll: 0,
            selected: 0,
            loading: true,
            error: None,
            filter: String::new(),
            filtering: false,
            pending_g: false,
            detail_total_lines: 0,
            sort_column: SortColumn::Name,
            sort_dir: SortDir::Asc,
            show_secret: false,
        }
    }
}

impl SecretsManagerView {
    /// The state but the secret list.
    pub open spec fn state(self) -> SecretsState {
        SecretsState {
            screen: self.screen,
            detail: self.detail,
            detail_scroll: self.detail_scroll,
            selected: self.selected,
            loading: self.loading,
            error: self.error,
            filter: self.filter@,
            filtering: self.filtering,
            pending_g: self.pending_g,
            detail_total_lines: self.detail_total_lines,
            sort_column: self.sort_column,
            sort_dir: self.sort_dir,
            show_secret: self.show_secret,
        }
    }

    /// Secret `i` passes the filter: the filter is empty, or its lowercase
    /// form occurs in the lowercase name or description.
    pub open spec fn keeps(self, i: int) -> bool {
        let f = lowercase(self.filter@);
        let secret = self.secrets@[i];
        self.filter@.len() == 0 || seq_contains(lowercase(secret.name@), f) || seq_contains(
            lowercase(secret.description@),
            f,
        )
    }

    /// The positions of the secrets that pass the filter.
    pub open spec fn matching(self) -> Seq<usize> {
        positions_where(self.secrets@.len(), |i: int| self.keeps(i))
    }

    /// What secret `i` is sorted by in the current column: the lowercase
    /// name, or the last access or change time as text.
    pub open spec fn key_of(self, i: int) -> KeyVal {
        let secret = self.secrets@[i];
        match self.sort_column {
            SortColumn::Name => KeyVal::Text(lowercase(secret.name@)),
            SortColumn::LastAccessed => KeyVal::Text(secret.last_accessed@),
            SortColumn::LastChanged => KeyVal::Text(secret.last_changed@),
        }
    }

    /// The rows to sort: the matching secrets by their keys.
    pub open spec fn entries(self) -> Seq<EntryVal> {
        self.matching().map_values(|i: usize| EntryVal { group: 0, key: self.key_of(i as int) })
    }

    /// The positions of the secrets the list shows, in order: those that
    /// pass the filter, sorted by the current column (descending when asked),
    /// ties in service order.
    pub open spec fn shown(self) -> Seq<usize> {
        arranged(self.matching(), stable_order(self.entries(), self.sort_dir == SortDir::Desc))
    }

    /// Replaces the secret list after a load.
    pub fn set_secrets(&mut self, secrets: Vec<SecretInfo>)
        ensures
            final(self).secrets == secrets,
            final(self).state() == (SecretsState { loading: false, error: None, selected: 0, ..old(self).state() }),
    {
        self.secrets = secrets;
        self.loading = false;
        self.error = None;
        self.selected = 0;
    }

    /// Records a failed load.
    pub fn set_error(&mut self, error: String)
        ensures
            final(self).secrets == old(self).secrets,
            final(self).state() == (SecretsState { error: Some(error), loading: false, ..old(self).state() }),
    {
        self.error = Some(error);
        self.loading = false;
    }

    /// Opens the detail screen, waiting for the configuration.
    pub fn enter_detail(&mut self)
        ensures
            final(self).secrets == old(self).secrets,
            final(self).state() == (SecretsState {
                screen: SecretsScreen::Detail,
                detail: None,
                detail_scroll: 0,
                loading: true,
                show_secret: false,
                filter: Seq::empty(),
                filtering: false,
                ..old(self).state()
            }),
    {
        self.screen = SecretsScreen::Detail;
        self.detail = None;
        self.detail_scroll = 0;
        self.loading = true;
        self.show_secret = false;
        clear_string(&mut self.filter);
        self.filtering = false;
    }

    /// Shows a loaded configuration.
    pub fn set_detail(&mut self, detail: SecretDetail)
        ensures
            final(self).secrets == old(self).secrets,
            final(self).state() == (SecretsState { detail: Some(detail), loading: false, error: None, ..old(self).state() }),
    {
        self.detail = Some(detail);
        self.loading = false;
        self.error = None;
    }

    /// Esc: drops a filter being typed, or goes back from the detail screen;
    /// tells whether anything was left (see `back_step`).
    pub fn go_back(&mut self) -> (r: bool)
        ensures
            final(self).secrets == old(self).secrets,
            (final(self).state(), r) == back_step(old(self).state()),
    {
        if self.filtering {
            self.filtering = false;
            clear_string(&mut self.filter);
            return true;
        }
        clear_string(&mut self.filter);
        self.filtering = false;
        match self.screen {
            SecretsScreen::Detail => {
                self.screen = SecretsScreen::List;
                self.detail = None;
                self.show_secret = false;
                self.loading = false;
                true
            },
            SecretsScreen::List => false,
        }
    }

    /// The secret under the cursor, if the cursor is on a shown row.
    pub fn selected_secret(&self) -> (r: Option<&SecretInfo>)
        ensures
            self.selected < self.shown().len() ==> r == Some(&self.secrets@[self.shown()[self.selected as int] as int]),
            self.selected >= self.shown().len() ==> r is None,
    {
        let shown = self.filtered_secrets();
        if self.selected < shown.len() {
            Some(&self.secrets[shown[self.selected]])
        } else {
            None
        }
    }

    /// Whether keys go to the filter.
    pub fn is_editing(&self) -> (r: bool)
        ensures
            r == self.filtering,
    {
        self.filtering
    }

    /// Whether the secret list still has to be loaded.
    pub fn needs_secret_load(&self) -> (r: bool)
        ensures
            r == (self.screen == SecretsScreen::List && self.loading),
    {
        self.screen == SecretsScreen::List && self.loading
    }

    /// `"list"` or `"detail"`.
    pub fn screen_type(&self) -> (r: &'static str)
        ensures
            r@ == (if self.screen == SecretsScreen::List { "list"@ } else { "detail"@ }),
    {
        match self.screen {
            SecretsScreen::List => "list",
            SecretsScreen::Detail => "detail",
        }
    }

    /// The title of the pane: `Secrets Manager > Secrets`, or
    /// `Secrets Manager > ` and the secret's name (`...` while it loads).
    pub fn breadcrumb(&self) -> (r: String)
        ensures
            r@ == (match self.screen {
                SecretsScreen::List => "Secrets Manager > Secrets"@,
                SecretsScreen::Detail => "Secrets Manager > "@ + match self.detail {
                    Some(d) => d.name@,
                    None => "..."@,
                },
            }),
    {
        match self.screen {
            SecretsScreen::List => owned("Secrets Manager > Secrets"),
            SecretsScreen::Detail => {
                let mut r = owned("Secrets Manager > ");
                match &self.detail {
                    Some(d) => push_str(&mut r, d.name.as_str()),
                    None => push_str(&mut r, "..."),
                }
                r
            },
        }
    }

    fn secret_keeps(&self, i: usize, f: &Vec<char>) -> (r: bool)
        requires
            i < self.secrets@.len(),
            self.filter@.len() > 0,
            f@ == lowercase(self.filter@),
        ensures
            r == self.keeps(i as int),
    {
        let secret = &self.secrets[i];
        contains_chars(&lower_chars(secret.name.as_str()), f) || contains_chars(
            &lower_chars(secret.description.as_str()),
            f,
        )
    }

    fn matching_positions(&self) -> (r: Vec<usize>)
        ensures
            r@ == self.matching(),
    {
        let n = self.secrets.len();
        let empty = self.filter.as_str().is_empty();
        let f = lower_chars(self.filter.as_str());
        let ghost keep = |i: int| self.keeps(i);
        let mut r: Vec<usize> = Vec::new();
        let mut i: usize = 0;
        while i < n
            invariant
                n == self.secrets@.len(),
                empty == (self.filter@.len() == 0),
                f@ == lowercase(self.filter@),
                keep == (|i: int| self.keeps(i)),
                0 <= i <= n,
                r@ == positions_where(i as nat, keep),
            decreases n - i,
        {
            if empty || self.secret_keeps(i, &f) {
                r.push(i);
            }
            i = i + 1;
        }
        r
    }

    fn sort_key(&self, i: usize) -> (k: SortKey)
        requires
            i < self.secrets@.len(),
        ensures
            k@ == self.key_of(i as int),
    {
        let secret = &self.secrets[i];
        match self.sort_column {
            SortColumn::Name => SortKey::Text(lower_chars(secret.name.as_str())),
            SortColumn::LastAccessed => SortKey::Text(chars_of(secret.last_accessed.as_str())),
            SortColumn::LastChanged => SortKey::Text(chars_of(secret.last_changed.as_str())),
        }
    }

    /// The positions of the secrets the list shows, in order.
    pub fn filtered_secrets(&self) -> (r: Vec<usize>)
        ensures
            r@ == self.shown(),
            forall|p: int| 0 <= p < r@.len() ==> #[trigger] r@[p] < self.secrets@.len(),
    {
        let pos = self.matching_positions();
        let _total = self.secrets.len();
        proof {
            lemma_positions_where(self.secrets@.len(), |i: int| self.keeps(i));
        }
        let m = pos.len();
        let mut entries: Vec<SortEntry> = Vec::new();
        let mut p: usize = 0;
        while p < m
            invariant
                m == pos@.len(),
                pos@ == self.matching(),
                forall|t: int| 0 <= t < m ==> #[trigger] pos@[t] < self.secrets@.len(),
                0 <= p <= m,
                entries@.len() == p,
                forall|t: int| 0 <= t < p ==> #[trigger] entries@[t]@ == (EntryVal { group: 0, key: self.key_of(pos@[t] as int) }),
            decreases m - p,
        {
            let key = self.sort_key(pos[p]);
            entries.push(SortEntry { group: 0, key });
            p = p + 1;
        }
        proof {
            assert(entry_vals(entries@) =~= self.entries());
        }
        let order = sort_order(&entries, self.sort_dir == SortDir::Desc);
        let r = arrange(&pos, &order);
        proof {
            assert forall|t: int| 0 <= t < r@.len() implies #[trigger] r@[t] < self.secrets@.len() by {
                assert(order@[t] < pos@.len());
            }
        }
        r
    }

    /// The number of rows the list shows.
    pub fn item_count(&self) -> (r: usize)
        ensures
            r == self.shown().len(),
    {
        self.filtered_secrets().len()
    }

    fn filter_key(&mut self, key: &KeyEvent)
        requires
            old(self).filtering,
        ensures
            final(self).secrets == old(self).secrets,
            final(self).state() == filter_step(old(self).state(), *key),
    {
        match key.code {
            KeyCode::Esc => {
                self.filtering = false;
                clear_string(&mut self.filter);
            },
            KeyCode::Enter => {
                self.filtering = false;
            },
            KeyCode::Backspace => {
                pop_char(&mut self.filter);
                self.selected = 0;
            },
            KeyCode::Char(c) => {
                push_char(&mut self.filter, c);
                self.selected = 0;
            },
            _ => {},
        }
    }

    /// Handles a key (see `key_step`); the action is what is left for the
    /// application to do.
    pub fn handle_key(&mut self, key: KeyEvent) -> (r: Option<Action>)
        ensures
            final(self).secrets == old(self).secrets,
            (final(self).state(), r) == key_step(old(self).state(), old(self).shown().len() as usize, key),
    {
        let ghost count = self.shown().len() as usize;
        if self.screen == SecretsScreen::Detail {
            if key.back() {
                self.pending_g = false;
                self.go_back();
                return Some(Action::NoOp);
            }
            if key.char_is('s') {
                self.pending_g = false;
                self.show_secret = !self.show_secret;
                return Some(Action::NoOp);
            }
            let (s, p) = detail_scroll_key(self.detail_scroll, self.pending_g, self.detail_total_lines, &key);
            self.detail_scroll = s;
            self.pending_g = p;
            return Some(Action::NoOp);
        }
        if self.filtering {
            self.filter_key(&key);
            return Some(Action::NoOp);
        }
        if key.down() {
            let count = self.item_count();
            self.pending_g = false;
            self.selected = move_down(self.selected, count);
        } else if key.up() {
            self.pending_g = false;
            self.selected = move_up(self.selected);
        } else if key.char_is('g') {
            if self.pending_g {
                self.selected = 0;
                self.pending_g = false;
            } else {
                self.pending_g = true;
            }
            return Some(Action::NoOp);
        } else if key.char_is('G') {
            let count = self.item_count();
            self.pending_g = false;
            self.selected = move_last(self.selected, count);
        } else if key.ctrl_char_is('d') {
            let count = self.item_count();
            self.pending_g = false;
            self.selected = move_half_page_down(self.selected, count);
        } else if key.ctrl_char_is('u') {
            self.pending_g = false;
            self.selected = move_half_page_up(self.selected);
        } else if key.char_is('s') {
            self.sort_column = match self.sort_column {
                SortColumn::Name => SortColumn::LastChanged,
                SortColumn::LastChanged => SortColumn::LastAccessed,
                SortColumn::LastAccessed => SortColumn::Name,
            };
            self.selected = 0;
        } else if key.char_is('S') {
            self.sort_column = match self.sort_column {
                SortColumn::Name => SortColumn::LastAccessed,
                SortColumn::LastChanged => SortColumn::Name,
                SortColumn::LastAccessed => SortColumn::LastChanged,
            };
            self.selected = 0;
        } else if key.char_is('x') {
            self.sort_dir = self.sort_dir.toggle();
            self.selected = 0;
        } else if key.char_is('r') {
            if self.error.is_some() {
                self.loading = true;
                self.error = None;
                return Some(Action::ServiceBack);
            }
        } else if key.char_is('/') {
            self.filtering = true;
            clear_string(&mut self.filter);
        } else if key.code == KeyCode::Enter {
            return Some(Action::ServiceEnter);
        } else if key.back() {
            if self.go_back() {
                return Some(Action::ServiceBack);
            } else {
                return None;
            }
        }
        Some(Action::NoOp)
    }

    /// Records how tall the drawn detail is: the largest useful scroll offset
    /// is the wrapped line count less the visible height, and the scroll
    /// offset is kept within it.
    pub fn set_detail_extent(&mut self, wrapped_lines: u16, height: u16)
        ensures
            final(self).secrets == old(self).secrets,
            final(self).state() == (SecretsState {
                detail_total_lines: sat_sub_u16(wrapped_lines, height as int),
                detail_scroll: if old(self).detail_scroll > sat_sub_u16(wrapped_lines, height as int) {
                    sat_sub_u16(wrapped_lines, height as int)
                } else {
                    old(self).detail_scroll
                },
                ..old(self).state()
            }),
    {
        let max_scroll = if wrapped_lines >= height {
            wrapped_lines - height
        } else {
            0
        };
        self.detail_total_lines = max_scroll;
        if self.detail_scroll > max_scroll {
            self.detail_scroll = max_scroll;
        }
    }
}


// ---------------------------------------------------------------------------
// The secret value as shown.
// ---------------------------------------------------------------------------

/// What `serde_json` gives for a text read as a JSON value and printed back
/// with `to_string_pretty`: the pretty text, or nothing when the text is
/// not JSON. It depends on the text alone.
pub uninterp spec fn json_pretty(text: Seq<char>) -> Option<Seq<char>>;

/// `serde_json::from_str::<serde_json::Value>` and then
/// `serde_json::to_string_pretty` on the value read. The contract only names
/// the result (`json_pretty`); the JSON grammar and the layout of the
/// printed text are left to `serde_json`.
#[verifier::external_body]
fn pretty_json(val: &str) -> (r: Option<String>)
    ensures
        match r {
            Some(p) => json_pretty(val@) == Some(p@),
            None => json_pretty(val@) is None,
        },
{
    match serde_json::from_str::<serde_json::Value>(val) {
        Ok(parsed) => match serde_json::to_string_pretty(&parsed) {
            Ok(p) => Some(p),
            Err(_) => None,
        },
        Err(_) => None,
    }
}

/// The lines a secret value is shown as, once it was pretty-printed or not
/// (see `secret_value_lines`).
pub open spec fn value_lines_of(val: Seq<char>, pretty: Option<Seq<char>>) -> Seq<Seq<char>> {
    match pretty {
        Some(p) => text_lines(p),
        None => seq![val],
    }
}

/// The lines of a secret value as the detail shows them, given what the
/// JSON printer made of it: the lines of the pretty text, or the value as
/// one line when it is not JSON.
pub fn value_lines_from(val: &str, pretty: Option<String>) -> (r: Vec<String>)
    ensures
        texts(r@) == value_lines_of(val@, match pretty {
            Some(p) => Some(p@),
            None => None,
        }),
{
    match pretty {
        Some(p) => lines_of(p.as_str()),
        None => {
            let mut r: Vec<String> = Vec::new();
            r.push(owned(val));
            assert(texts(r@) =~= seq![val@]);
            r
        },
    }
}

/// The lines of a secret value as the detail shows them: pretty-printed
/// where it reads as JSON, else the value as one line.
pub fn secret_value_lines(val: &str) -> (r: Vec<String>)
    ensures
        texts(r@) == value_lines_of(val@, json_pretty(val@)),
{
    let pretty = pretty_json(val);
    value_lines_from(val, pretty)
}

} // verus!
