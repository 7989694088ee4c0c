//! The S3 screens: buckets, the objects under a prefix, one object's detail.
use vstd::prelude::*;
use crate::app::Action;
use crate::aws::s3::{after_last, tail_after, BucketInfo, ObjectDetail, ObjectInfo};
use crate::input::{is_back, is_char, is_down, is_up, KeyCode, KeyEvent};
use crate::nav::{detail_scroll_key, detail_scroll_step, jump_last, move_down, move_last, move_up, sat_sub_u16, step_down, step_up};
use crate::order::{arrange, arranged, entry_vals, lemma_positions_where, positions_where, sort_order, stable_order, EntryVal, KeyVal, SortEntry, SortKey, reversed};
use crate::text::{chars_of, clear_string, contains_chars, copy_string, lower_chars, lowercase, owned, pop_char, push_char, push_chars, push_str, seq_contains};
use crate::ui::services::{flip, SortDir};

verus! {

/// Which S3 screen is shown.
#[derive(Debug, Clone, Copy, PartialEq, Eq, Structural)]
pub enum S3Screen {
    Buckets,
    Objects,
    Detail,
}

/// The column a list is sorted by (buckets sort by creation time under both
/// `Size` and `Modified`).
#[derive(Debug, Clone, Copy, PartialEq, Eq, Structural)]
pub enum SortColumn {
    Name,
    Size,
    Modified,
}

/// The next sort column (`s`) on a screen.
pub open spec fn next_column(screen: S3Screen, c: SortColumn) -> SortColumn {
    match (screen, c) {
        (S3Screen::Buckets, SortColumn::Name) => SortColumn::Modified,
        (S3Screen::Buckets, _) => SortColumn::Name,
        (S3Screen::Objects, SortColumn::Name) => SortColumn::Size,
        (S3Screen::Objects, SortColumn::Size) => SortColumn::Modified,
        (S3Screen::Objects, SortColumn::Modified) => SortColumn::Name,
        _ => SortColumn::Name,
    }
}

/// The previous sort column (`S`) on a screen.
pub open spec fn prev_column(screen: S3Screen, c: SortColumn) -> SortColumn {
    match (screen, c) {
        (S3Screen::Buckets, SortColumn::Name) => SortColumn::Modified,
        (S3Screen::Buckets, _) => SortColumn::Name,
        (S3Screen::Objects, SortColumn::Name) => SortColumn::Modified,
        (S3Screen::Objects, SortColumn::Modified) => SortColumn::Size,
        (S3Screen::Objects, SortColumn::Size) => SortColumn::Name,
        _ => SortColumn::Name,
    }
}

/// The state of the S3 screens.
#[derive(Debug)]
pub struct S3View {
    pub screen: S3Screen,
    pub buckets: Vec<BucketInfo>,
    pub objects: Vec<ObjectInfo>,
    pub detail: Option<ObjectDetail>,
    pub detail_scroll: u16,
    /// The cursor, as a position in the shown (filtered, sorted) list.
    pub selected: usize,
    /// The first row the list was last drawn from.
    pub list_offset: usize,
    pub bucket_name: String,
    pub prefix: String,
    /// The prefixes entered before the current one, innermost last.
    pub prefix_stack: Vec<String>,
    pub loading: bool,
    pub error: Option<String>,
    pub filter: String,
    pub filtering: bool,
    pub status_msg: Option<String>,
    pub pending_g: bool,
    pub detail_total_lines: u16,
    pub sort_column: SortColumn,
    pub sort_dir: SortDir,
}

/// Everything of the S3 state but the bucket and object lists.
pub ghost struct S3State {
    pub screen: S3Screen,
    pub detail: Option<ObjectDetail>,
    pub detail_scroll: u16,
    pub selected: usize,
    pub list_offset: usize,
    pub bucket_name: Seq<char>,
    pub prefix: Seq<char>,
    pub prefix_stack: Seq<Seq<char>>,
    pub loading: bool,
    pub error: Option<String>,
    pub filter: Seq<char>,
    pub filtering: bool,
    pub status_msg: Option<String>,
    pub pending_g: bool,
    pub detail_total_lines: u16,
    pub sort_column: SortColumn,
    pub sort_dir: SortDir,
}

/// Esc: a filter being typed is dropped (and that is all); otherwise the
/// filter is dropped and the screen goes back: from the detail to the
/// objects, from a prefix to the one entered before it (to be listed again),
/// from a bucket's top level to the bucket list. The flag tells whether
/// anything was left.
pub open spec fn back_step(m: S3State) -> (S3State, bool) {
    if m.filtering {
        (S3State { filtering: false, filter: Seq::empty(), ..m }, true)
    } else {
        let m1 = S3State { filtering: false, filter: Seq::empty(), ..m };
        match m.screen {
            S3Screen::Detail => (S3State { screen: S3Screen::Objects, detail: None, loading: false, ..m1 }, true),
            S3Screen::Objects => if m.prefix_stack.len() > 0 {
                (
                    S3State {
                        prefix: m.prefix_stack.last(),
                        prefix_stack: m.prefix_stack.drop_last(),
                        selected: 0,
                        loading: true,
                        ..m1
                    },
                    true,
                )
            } else {
                (S3State { screen: S3Screen::Buckets, selected: 0, loading: false, ..m1 }, true)
            },
            S3Screen::Buckets => (m1, false),
        }
    }
}

/// A key typed into the filter (as on the other screens).
pub open spec fn filter_step(m: S3State, k: KeyEvent) -> S3State {
    match k.code {
        KeyCode::Esc => S3State { filtering: false, filter: Seq::empty(), ..m },
        KeyCode::Enter => S3State { filtering: false, ..m },
        KeyCode::Backspace => S3State {
            filter: if m.filter.len() > 0 {
                m.filter.drop_last()
            } else {
                m.filter
            },
            selected: 0,
            ..m
        },
        KeyCode::Char(c) => S3State { filter: m.filter.push(c), selected: 0, ..m },
        _ => m,
    }
}

/// What a key does to the S3 screens, given the number of rows the current
/// list shows.
pub open spec fn key_step(m: S3State, count: usize, k: KeyEvent) -> (S3State, Option<Action>) {
    if m.screen == S3Screen::Detail {
        if is_back(k) {
            (back_step(S3State { pending_g: false, ..m }).0, Some(Action::NoOp))
        } else if is_char(k, 'd') && !k.modifiers.control {
            (S3State { pending_g: false, ..m }, Some(Action::S3Download))
        } else {
            let (s, p) = detail_scroll_step(m.detail_scroll, m.pending_g, m.detail_total_lines, k);
            (S3State { detail_scroll: s, pending_g: p, ..m }, Some(Action::NoOp))
        }
    } else if m.filtering {
        (filter_step(m, k), Some(Action::NoOp))
    } else if is_down(k) {
        (S3State { selected: step_down(m.selected, count), ..m }, Some(Action::NoOp))
    } else if is_up(k) {
        (S3State { selected: step_up(m.selected), ..m }, Some(Action::NoOp))
    } else if is_char(k, 'g') {
        if m.pending_g {
            (S3State { selected: 0, pending_g: false, ..m }, Some(Action::NoOp))
        } else {
            (S3State { pending_g: true, ..m }, Some(Action::NoOp))
        }
    } else if is_char(k, 'G') {
        (S3State { pending_g: false, selected: jump_last(m.selected, count), ..m }, Some(Action::NoOp))
    } else if is_char(k, 's') {
        (S3State { sort_column: next_column(m.screen, m.sort_column), selected: 0, ..m }, Some(Action::NoOp))
    } else if is_char(k, 'S') {
        (S3State { sort_column: prev_column(m.screen, m.sort_column), selected: 0, ..m }, Some(Action::NoOp))
    } else if is_char(k, 'x') {
        (S3State { sort_dir: flip(m.sort_dir), selected: 0, ..m }, Some(Action::NoOp))
    } else if is_char(k, 'r') {
        if m.error is Some {
            (S3State { loading: true, error: None, ..m }, Some(Action::ServiceBack))
        } else {
            (m, Some(Action::NoOp))
        }
    } else if is_char(k, '/') {
        (S3State { filtering: true, filter: Seq::empty(), ..m }, Some(Action::NoOp))
    } else if k.code == KeyCode::Enter {
        (m, Some(Action::ServiceEnter))
    } else if is_back(k) {
        let (m2, went) = back_step(m);
        (m2, if went { Some(Action::ServiceBack) } else { None })
    } else {
        (m, Some(Action::NoOp))
    }
}

/// The state the screens start in: the bucket list, loading, sorted by name
/// ascending.
pub open spec fn initial_state() -> S3State {
    S3State {
        screen: S3Screen::Buckets,
        detail: None,
        detail_scroll: 0,
        selected: 0,
        list_offset: 0,
        bucket_name: Seq::empty(),
        prefix: Seq::empty(),
        prefix_stack: Seq::empty(),
        loading: true,
        error: None,
        filter: Seq::empty(),
        filtering: false,
        status_msg: None,
        pending_g: false,
        detail_total_lines: 0,
        sort_column: SortColumn::Name,
        sort_dir: SortDir::Asc,
    }
}

/// The texts of a list of strings.
pub open spec fn stack_texts(v: Seq<String>) -> Seq<Seq<char>> {
    v.map_values(|s: String| s@)
}

impl Default for S3View {
    fn default() -> (v: Self)
        ensures
            v.state() == initial_state(),
            v.buckets@.len() == 0,
            v.objects@.len() == 0,
    {
        let v = S3View {
            screen: S3Screen::Buckets,
            buckets: Vec::new(),
            objects: Vec::new(),
            detail: None,
            detail_scroll: 0,
            selected: 0,
            list_offset: 0,
            bucket_name: String::new(),
            prefix: String::new(),
            prefix_stack: Vec::new(),
            loading: true,
            error: None,
            filter: String::new(),
            filtering: false,
            status_msg: None,
            pending_g: false,
            detail_total_lines: 0,
            sort_column: SortColumn::Name,
            sort_dir: SortDir::Asc,
        };
        proof {
            assert(stack_texts(v.prefix_stack@) =~= Seq::<Seq<char>>::empty());
        }
        v
    }
}

impl S3View {
    /// The state but the lists.
    pub open spec fn state(self) -> S3State {
        S3State {
            screen: self.screen,
            detail: self.detail,
            detail_scroll: self.detail_scroll,
            selected: self.selected,
            list_offset: self.list_offset,
            bucket_name: self.bucket_name@,
            prefix: self.prefix@,
            prefix_stack: stack_texts(self.prefix_stack@),
            loading: self.loading,
            error: self.error,
            filter: self.filter@,
            filtering: self.filtering,
            status_msg: self.status_msg,
            pending_g: self.pending_g,
            detail_total_lines: self.detail_total_lines,
            sort_column: self.sort_column,
            sort_dir: self.sort_dir,
        }
    }

    /// The lists are as they were.
    pub open spec fn same_lists(self, other: S3View) -> bool {
        self.buckets == other.buckets && self.objects == other.objects
    }

    /// Bucket `i` passes the filter (empty, or in its lowercase name).
    pub open spec fn keeps_bucket(self, i: int) -> bool {
        self.filter@.len() == 0 || seq_contains(lowercase(self.buckets@[i].name@), lowercase(self.filter@))
    }

    /// Object `i` passes the filter (empty, or in its lowercase display
    /// name).
    pub open spec fn keeps_object(self, i: int) -> bool {
        self.filter@.len() == 0 || seq_contains(
            lowercase(self.objects@[i].display_name@),
            lowercase(self.filter@),
        )
    }

    /// The positions of the buckets that pass the filter.
    pub open spec fn matching_buckets(self) -> Seq<usize> {
        positions_where(self.buckets@.len(), |i: int| self.keeps_bucket(i))
    }

    /// The positions of the objects that pass the filter.
    pub open spec fn matching_objects(self) -> Seq<usize> {
        positions_where(self.objects@.len(), |i: int| self.keeps_object(i))
    }

    /// What bucket `i` is sorted by: its name, or its creation time (under
    /// `Size` and `Modified`).
    pub open spec fn bucket_key(self, i: int) -> KeyVal {
        let b = self.buckets@[i];
        match self.sort_column {
            SortColumn::Name => KeyVal::Text(b.name@),
            _ => KeyVal::OptText(crate::aws::s3::opt_text(b.created)),
        }
    }

    /// What object `i` is sorted by: its lowercase display name, its size
    /// (0 when unknown) or its modification time.
    pub open spec fn object_key(self, i: int) -> KeyVal {
        let o = self.objects@[i];
        match self.sort_column {
            SortColumn::Name => KeyVal::Text(lowercase(o.display_name@)),
            SortColumn::Size => KeyVal::Int(
                match o.size {
                    Some(s) => s as int,
                    None => 0,
                },
            ),
            SortColumn::Modified => KeyVal::OptText(crate::aws::s3::opt_text(o.last_modified)),
        }
    }

    /// The rows to sort for the bucket list.
    pub open spec fn bucket_entries(self) -> Seq<EntryVal> {
        self.matching_buckets().map_values(|i: usize| EntryVal { group: 0, key: self.bucket_key(i as int) })
    }

    /// The rows to sort for the object list: folders form the first group.
    pub open spec fn object_entries(self) -> Seq<EntryVal> {
        self.matching_objects().map_values(
            |i: usize|
                EntryVal {
                    group: if self.objects@[i as int].is_prefix {
                        0
                    } else {
                        1
                    },
                    key: self.object_key(i as int),
                },
        )
    }

    /// The positions of the buckets the list shows, in order: those that
    /// pass the filter sorted ascending by the column (ties in service
    /// order), the whole list reversed when descending.
    pub open spec fn shown_buckets(self) -> Seq<usize> {
        let asc = arranged(self.matching_buckets(), stable_order(self.bucket_entries(), false));
        if self.sort_dir == SortDir::Desc {
            asc.reverse()
        } else {
            asc
        }
    }

    /// The positions of the objects the list shows, in order: those that
    /// pass the filter, folders first, each group sorted by the column
    /// (descending when asked), ties in service order.
    pub open spec fn shown_objects(self) -> Seq<usize> {
        arranged(self.matching_objects(), stable_order(self.object_entries(), self.sort_dir == SortDir::Desc))
    }

    /// The number of rows the current screen lists.
    pub open spec fn count(self) -> int {
        match self.screen {
            S3Screen::Buckets => self.shown_buckets().len() as int,
            S3Screen::Objects => self.shown_objects().len() as int,
            S3Screen::Detail => 0,
        }
    }

    /// Replaces the bucket list after a load.
    pub fn set_buckets(&mut self, buckets: Vec<BucketInfo>)
        ensures
            final(self).buckets == buckets,
            final(self).objects == old(self).objects,
            final(self).state() == (S3State { loading: false, error: None, selected: 0, list_offset: 0, ..old(self).state() }),
    {
        self.buckets = buckets;
        self.loading = false;
        self.error = None;
        self.selected = 0;
        self.list_offset = 0;
    }

    /// Replaces the object list after a load.
    pub fn set_objects(&mut self, objects: Vec<ObjectInfo>)
        ensures
            final(self).objects == objects,
            final(self).buckets == old(self).buckets,
            final(self).state() == (S3State { loading: false, error: None, selected: 0, list_offset: 0, ..old(self).state() }),
    {
        self.objects = objects;
        self.loading = false;
        self.error = None;
        self.selected = 0;
        self.list_offset = 0;
    }

    /// Records a failed load.
    pub fn set_error(&mut self, error: String)
        ensures
            final(self).same_lists(*old(self)),
            final(self).state() == (S3State { error: Some(error), loading: false, ..old(self).state() }),
    {
        self.error = Some(error);
        self.loading = false;
    }

    /// Marks the current list as loading again.
    pub fn set_loading(&mut self)
        ensures
            final(self).same_lists(*old(self)),
            final(self).state() == (S3State { loading: true, error: None, ..old(self).state() }),
    {
        self.loading = true;
        self.error = None;
    }

    /// Opens a bucket at its top level, waiting for its listing.
    pub fn enter_bucket(&mut self, bucket: String)
        ensures
            final(self).same_lists(*old(self)),
            final(self).state() == (S3State {
                bucket_name: bucket@,
                prefix: Seq::empty(),
                prefix_stack: Seq::empty(),
                screen: S3Screen::Objects,
                selected: 0,
                list_offset: 0,
                loading: true,
                filter: Seq::empty(),
                filtering: false,
                ..old(self).state()
            }),
    {
        self.bucket_name = bucket;
        self.prefix = String::new();
        self.prefix_stack.clear();
        self.screen = S3Screen::Objects;
        self.selected = 0;
        self.list_offset = 0;
        self.loading = true;
        clear_string(&mut self.filter);
        self.filtering = false;
        proof {
            assert(stack_texts(self.prefix_stack@) =~= Seq::<Seq<char>>::empty());
        }
    }

    /// Opens the detail screen, waiting for the object's metadata.
    pub fn enter_detail(&mut self)
        ensures
            final(self).same_lists(*old(self)),
            final(self).state() == (S3State {
                screen: S3Screen::Detail,
                detail: None,
                detail_scroll: 0,
                loading: true,
                status_msg: None,
                filter: Seq::empty(),
                filtering: false,
                ..old(self).state()
            }),
    {
        self.screen = S3Screen::Detail;
        self.detail = None;
        self.detail_scroll = 0;
        self.loading = true;
        self.status_msg = None;
        clear_string(&mut self.filter);
        self.filtering = false;
    }

    /// Shows loaded metadata.
    pub fn set_detail(&mut self, detail: ObjectDetail)
        ensures
            final(self).same_lists(*old(self)),
            final(self).state() == (S3State { detail: Some(detail), loading: false, error: None, ..old(self).state() }),
    {
        self.detail = Some(detail);
        self.loading = false;
        self.error = None;
    }

    /// Opens a folder: the current prefix is remembered, the new one is
    /// listed.
    pub fn enter_prefix(&mut self, prefix: String)
        ensures
            final(self).same_lists(*old(self)),
            final(self).state() == (S3State {
                prefix_stack: old(self).state().prefix_stack.push(old(self).prefix@),
                prefix: prefix@,
                selected: 0,
                list_offset: 0,
                loading: true,
                filter: Seq::empty(),
                filtering: false,
                ..old(self).state()
            }),
    {
        let current = copy_string(&self.prefix);
        self.prefix_stack.push(current);
        self.prefix = prefix;
        self.selected = 0;
        self.list_offset = 0;
        self.loading = true;
        clear_string(&mut self.filter);
        self.filtering = false;
        proof {
            assert(stack_texts(self.prefix_stack@) =~= old(self).state().prefix_stack.push(old(self).prefix@));
        }
    }

    /// Esc: drops a filter being typed or goes back one screen (see
    /// `back_step`); tells whether anything was left.
    pub fn go_back(&mut self) -> (r: bool)
        ensures
            final(self).same_lists(*old(self)),
            (final(self).state(), r) == back_step(old(self).state()),
    {
        if self.filtering {
            self.filtering = false;
            clear_string(&mut self.filter);
            return true;
        }
        clear_string(&mut self.filter);
        self.filtering = false;
        match self.screen {
            S3Screen::Detail => {
                self.screen = S3Screen::Objects;
                self.detail = None;
                self.loading = false;
                true
            },
            S3Screen::Objects => {
                let ghost before = self.prefix_stack@;
                match self.prefix_stack.pop() {
                    Some(prev) => {
                        self.prefix = prev;
                        self.selected = 0;
                        self.loading = true;
                        proof {
                            assert(stack_texts(self.prefix_stack@) =~= stack_texts(before).drop_last());
                        }
                        true
                    },
                    None => {
                        self.screen = S3Screen::Buckets;
                        self.selected = 0;
                        self.loading = false;
                        true
                    },
                }
            },
            S3Screen::Buckets => false,
        }
    }

    fn matching_bucket_positions(&self) -> (r: Vec<usize>)
        ensures
            r@ == self.matching_buckets(),
    {
        let n = self.buckets.len();
        let empty = self.filter.as_str().is_empty();
        let f = lower_chars(self.filter.as_str());
        let ghost keep = |i: int| self.keeps_bucket(i);
        let mut r: Vec<usize> = Vec::new();
        let mut i: usize = 0;
        while i < n
            invariant
                n == self.buckets@.len(),
                empty == (self.filter@.len() == 0),
                f@ == lowercase(self.filter@),
                keep == (|i: int| self.keeps_bucket(i)),
                0 <= i <= n,
                r@ == positions_where(i as nat, keep),
            decreases n - i,
        {
            if empty || contains_chars(&lower_chars(self.buckets[i].name.as_str()), &f) {
                r.push(i);
            }
            i = i + 1;
        }
        r
    }

    fn matching_object_positions(&self) -> (r: Vec<usize>)
        ensures
            r@ == self.matching_objects(),
    {
        let n = self.objects.len();
        let empty = self.filter.as_str().is_empty();
        let f = lower_chars(self.filter.as_str());
        let ghost keep = |i: int| self.keeps_object(i);
        let mut r: Vec<usize> = Vec::new();
        let mut i: usize = 0;
        while i < n
            invariant
                n == self.objects@.len(),
                empty == (self.filter@.len() == 0),
                f@ == lowercase(self.filter@),
                keep == (|i: int| self.keeps_object(i)),
                0 <= i <= n,
                r@ == positions_where(i as nat, keep),
            decreases n - i,
        {
            if empty || contains_chars(&lower_chars(self.objects[i].display_name.as_str()), &f) {
                r.push(i);
            }
            i = i + 1;
        }
        r
    }

    fn opt_chars(o: &Option<String>) -> (r: Option<Vec<char>>)
        ensures
            match o {
                Some(s) => r is Some && r->0@ == s@,
                None => r is None,
            },
    {
        match o {
            Some(s) => Some(chars_of(s.as_str())),
            None => None,
        }
    }

    /// The positions of the buckets the list shows, in order.
    pub fn filtered_buckets(&self) -> (r: Vec<usize>)
        ensures
            r@ == self.shown_buckets(),
            forall|p: int| 0 <= p < r@.len() ==> #[trigger] r@[p] < self.buckets@.len(),
    {
        let pos = self.matching_bucket_positions();
        let _total = self.buckets.len();
        proof {
            lemma_positions_where(self.buckets@.len(), |i: int| self.keeps_bucket(i));
        }
        let m = pos.len();
        let mut entries: Vec<SortEntry> = Vec::new();
        let mut p: usize = 0;
        while p < m
            invariant
                m == pos@.len(),
                pos@ == self.matching_buckets(),
                forall|t: int| 0 <= t < m ==> #[trigger] pos@[t] < self.buckets@.len(),
                0 <= p <= m,
                entries@.len() == p,
                forall|t: int| 0 <= t < p ==> #[trigger] entries@[t]@ == (EntryVal { group: 0, key: self.bucket_key(pos@[t] as int) }),
            decreases m - p,
        {
            let b = &self.buckets[pos[p]];
            let key = match self.sort_column {
                SortColumn::Name => SortKey::Text(chars_of(b.name.as_str())),
                _ => SortKey::OptText(Self::opt_chars(&b.created)),
            };
            entries.push(SortEntry { group: 0, key });
            p = p + 1;
        }
        proof {
            assert(entry_vals(entries@) =~= self.bucket_entries());
        }
        let order = sort_order(&entries, false);
        let mut r = arrange(&pos, &order);
        proof {
            assert forall|t: int| 0 <= t < r@.len() implies #[trigger] r@[t] < self.buckets@.len() by {
                assert(order@[t] < pos@.len());
            }
        }
        if self.sort_dir == SortDir::Desc {
            let ghost asc = r@;
            r = reversed(&r);
            proof {
                assert forall|t: int| 0 <= t < r@.len() implies #[trigger] r@[t] < self.buckets@.len() by {
                    assert(r@[t] == asc[asc.len() - 1 - t]);
                }
            }
        }
        r
    }

    /// The positions of the objects the list shows, in order.
    pub fn filtered_objects(&self) -> (r: Vec<usize>)
        ensures
            r@ == self.shown_objects(),
            forall|p: int| 0 <= p < r@.len() ==> #[trigger] r@[p] < self.objects@.len(),
    {
        let pos = self.matching_object_positions();
        let _total = self.objects.len();
        proof {
            lemma_positions_where(self.objects@.len(), |i: int| self.keeps_object(i));
        }
        let m = pos.len();
        let mut entries: Vec<SortEntry> = Vec::new();
        let mut p: usize = 0;
        while p < m
            invariant
                m == pos@.len(),
                pos@ == self.matching_objects(),
                forall|t: int| 0 <= t < m ==> #[trigger] pos@[t] < self.objects@.len(),
                0 <= p <= m,
                entries@.len() == p,
                forall|t: int| 0 <= t < p ==> #[trigger] entries@[t]@ == (EntryVal {
                    group: if self.objects@[pos@[t] as int].is_prefix {
                        0
                    } else {
                        1
                    },
                    key: self.object_key(pos@[t] as int),
                }),
            decreases m - p,
        {
            let o = &self.objects[pos[p]];
            let key = match self.sort_column {
                SortColumn::Name => SortKey::Text(lower_chars(o.display_name.as_str())),
                SortColumn::Size => SortKey::Int(
                    match o.size {
                        Some(s) => s,
                        None => 0,
                    },
                ),
                SortColumn::Modified => SortKey::OptText(Self::opt_chars(&o.last_modified)),
            };
            let group: u8 = if o.is_prefix {
                0
            } else {
                1
            };
            entries.push(SortEntry { group, key });
            p = p + 1;
        }
        proof {
            assert(entry_vals(entries@) =~= self.object_entries());
        }
        let order = sort_order(&entries, self.sort_dir == SortDir::Desc);
        let r = arrange(&pos, &order);
        proof {
            assert forall|t: int| 0 <= t < r@.len() implies #[trigger] r@[t] < self.objects@.len() by {
                assert(order@[t] < pos@.len());
            }
        }
        r
    }

    /// The number of rows the current screen lists.
    pub fn item_count(&self) -> (r: usize)
        ensures
            r == self.count(),
    {
        match self.screen {
            S3Screen::Buckets => self.filtered_buckets().len(),
            S3Screen::Objects => self.filtered_objects().len(),
            S3Screen::Detail => 0,
        }
    }

    /// The bucket under the cursor, if the cursor is on a shown row.
    pub fn selected_bucket(&self) -> (r: Option<&BucketInfo>)
        ensures
            self.selected < self.shown_buckets().len() ==> r == Some(&self.buckets@[self.shown_buckets()[self.selected as int] as int]),
            self.selected >= self.shown_buckets().len() ==> r is None,
    {
        let shown = self.filtered_buckets();
        if self.selected < shown.len() {
            Some(&self.buckets[shown[self.selected]])
        } else {
            None
        }
    }

    /// The object under the cursor, if the cursor is on a shown row.
    pub fn selected_object(&self) -> (r: Option<&ObjectInfo>)
        ensures
            self.selected < self.shown_objects().len() ==> r == Some(&self.objects@[self.shown_objects()[self.selected as int] as int]),
            self.selected >= self.shown_objects().len() ==> r is None,
    {
        let shown = self.filtered_objects();
        if self.selected < shown.len() {
            Some(&self.objects[shown[self.selected]])
        } else {
            None
        }
    }

    /// Whether keys go to the filter.
    pub fn is_editing(&self) -> (r: bool)
        ensures
            r == self.filtering,
    {
        self.filtering
    }

    /// Whether the bucket list still has to be loaded.
    pub fn needs_bucket_load(&self) -> (r: bool)
        ensures
            r == (self.screen == S3Screen::Buckets && self.loading),
    {
        self.screen == S3Screen::Buckets && self.loading
    }

    /// Whether the object list still has to be loaded.
    pub fn needs_object_load(&self) -> (r: bool)
        ensures
            r == (self.screen == S3Screen::Objects && self.loading),
    {
        self.screen == S3Screen::Objects && self.loading
    }

    /// The open bucket.
    pub fn current_bucket(&self) -> (r: &str)
        ensures
            r@ == self.bucket_name@,
    {
        self.bucket_name.as_str()
    }

    /// The open prefix.
    pub fn current_prefix(&self) -> (r: &str)
        ensures
            r@ == self.prefix@,
    {
        self.prefix.as_str()
    }

    /// `"buckets"`, `"objects"` or `"detail"`.
    pub fn screen_type(&self) -> (r: &'static str)
        ensures
            r@ == (match self.screen {
                S3Screen::Buckets => "buckets"@,
                S3Screen::Objects => "objects"@,
                S3Screen::Detail => "detail"@,
            }),
    {
        match self.screen {
            S3Screen::Buckets => "buckets",
            S3Screen::Objects => "objects",
            S3Screen::Detail => "detail",
        }
    }

    /// The title of the pane: `S3 > Buckets`; `S3 > bucket` or
    /// `S3 > bucket > prefix`; `S3 > bucket > ` and the object's file name
    /// (`...` while it loads).
    pub fn breadcrumb(&self) -> (r: String)
        ensures
            r@ == (match self.screen {
                S3Screen::Buckets => "S3 > Buckets"@,
                S3Screen::Objects => if self.prefix@.len() == 0 {
                    "S3 > "@ + self.bucket_name@
                } else {
                    "S3 > "@ + self.bucket_name@ + " > "@ + self.prefix@
                },
                S3Screen::Detail => "S3 > "@ + self.bucket_name@ + " > "@ + after_last(
                    match self.detail {
                        Some(d) => d.key@,
                        None => "..."@,
                    },
                    '/',
                ),
            }),
    {
        match self.screen {
            S3Screen::Buckets => owned("S3 > Buckets"),
            S3Screen::Objects => {
                let mut r = owned("S3 > ");
                push_str(&mut r, self.bucket_name.as_str());
                if !self.prefix.as_str().is_empty() {
                    push_str(&mut r, " > ");
                    push_str(&mut r, self.prefix.as_str());
                }
                r
            },
            S3Screen::Detail => {
                let key = match &self.detail {
                    Some(d) => chars_of(d.key.as_str()),
                    None => chars_of("..."),
                };
                let mut r = owned("S3 > ");
                push_str(&mut r, self.bucket_name.as_str());
                push_str(&mut r, " > ");
                push_chars(&mut r, &tail_after(&key, '/'));
                r
            },
        }
    }

    fn filter_key(&mut self, key: &KeyEvent)
        requires
            old(self).filtering,
        ensures
            final(self).same_lists(*old(self)),
            final(self).state() == filter_step(old(self).state(), *key),
    {
        match key.code {
            KeyCode::Esc => {
                self.filtering = false;
                clear_string(&mut self.filter);
            },
            KeyCode::Enter => {
                self.filtering = false;
            },
            KeyCode::Backspace => {
                pop_char(&mut self.filter);
                self.selected = 0;
            },
            KeyCode::Char(c) => {
                push_char(&mut self.filter, c);
                self.selected = 0;
            },
            _ => {},
        }
    }

    /// Handles a key (see `key_step`); the action is what is left for the
    /// application to do.
    pub fn handle_key(&mut self, key: KeyEvent) -> (r: Option<Action>)
        ensures
            final(self).same_lists(*old(self)),
            (final(self).state(), r) == key_step(old(self).state(), old(self).count() as usize, key),
    {
        if self.screen == S3Screen::Detail {
            if key.back() {
                self.pending_g = false;
                self.go_back();
                return Some(Action::NoOp);
            }
            if key.char_is('d') && !key.modifiers.control {
                self.pending_g = false;
                return Some(Action::S3Download);
            }
            let (s, p) = detail_scroll_key(self.detail_scroll, self.pending_g, self.detail_total_lines, &key);
            self.detail_scroll = s;
            self.pending_g = p;
            return Some(Action::NoOp);
        }
        if self.filtering {
            self.filter_key(&key);
            return Some(Action::NoOp);
        }
        if key.down() {
            let count = self.item_count();
            self.selected = move_down(self.selected, count);
        } else if key.up() {
            self.selected = move_up(self.selected);
        } else if key.char_is('g') {
            if self.pending_g {
                self.selected = 0;
                self.pending_g = false;
            } else {
                self.pending_g = true;
            }
            return Some(Action::NoOp);
        } else if key.char_is('G') {
            let count = self.item_count();
            self.pending_g = false;
            self.selected = move_last(self.selected, count);
        } else if key.char_is('s') {
            self.sort_column = match (self.screen, self.sort_column) {
                (S3Screen::Buckets, SortColumn::Name) => SortColumn::Modified,
                (S3Screen::Buckets, _) => SortColumn::Name,
                (S3Screen::Objects, SortColumn::Name) => SortColumn::Size,
                (S3Screen::Objects, SortColumn::Size) => SortColumn::Modified,
                (S3Screen::Objects, SortColumn::Modified) => SortColumn::Name,
                _ => SortColumn::Name,
            };
            self.selected = 0;
        } else if key.char_is('S') {
            self.sort_column = match (self.screen, self.sort_column) {
                (S3Screen::Buckets, SortColumn::Name) => SortColumn::Modified,
                (S3Screen::Buckets, _) => SortColumn::Name,
                (S3Screen::Objects, SortColumn::Name) => SortColumn::Modified,
                (S3Screen::Objects, SortColumn::Modified) => SortColumn::Size,
                (S3Screen::Objects, SortColumn::Size) => SortColumn::Name,
                _ => SortColumn::Name,
            };
            self.selected = 0;
        } else if key.char_is('x') {
            self.sort_dir = self.sort_dir.toggle();
            self.selected = 0;
        } else if key.char_is('r') {
            if self.error.is_some() {
                self.loading = true;
                self.error = None;
                return Some(Action::ServiceBack);
            }
        } else if key.char_is('/') {
            self.filtering = true;
            clear_string(&mut self.filter);
        } else if key.code == KeyCode::Enter {
            return Some(Action::ServiceEnter);
        } else if key.back() {
            if self.go_back() {
                return Some(Action::ServiceBack);
            } else {
                return None;
            }
        }
        Some(Action::NoOp)
    }

    /// Records how tall the drawn detail is (see the Lambda screens).
    pub fn set_detail_extent(&mut self, wrapped_lines: u16, height: u16)
        ensures
            final(self).same_lists(*old(self)),
            final(self).state() == (S3State {
                detail_total_lines: sat_sub_u16(wrapped_lines, height as int),
                detail_scroll: if old(self).detail_scroll > sat_sub_u16(wrapped_lines, height as int) {
                    sat_sub_u16(wrapped_lines, height as int)
                } else {
                    old(self).detail_scroll
                },
                ..old(self).state()
            }),
    {
        let max_scroll = if wrapped_lines >= height {
            wrapped_lines - height
        } else {
            0
        };
        self.detail_total_lines = max_scroll;
        if self.detail_scroll > max_scroll {
            self.detail_scroll = max_scroll;
        }
    }

    /// Records the first row the list was drawn from.
    pub fn set_list_offset(&mut self, offset: usize)
        ensures
            final(self).same_lists(*old(self)),
            final(self).state() == (S3State { list_offset: offset, ..old(self).state() }),
    {
        self.list_offset = offset;
    }
}

} // verus!
