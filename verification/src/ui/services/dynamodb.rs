//! The DynamoDB screens: tables, a table's items page by page (scan or
//! query, on the table or an index), and one item, with the index picker and
//! the query builder.
use vstd::prelude::*;
use crate::app::Action;
use crate::aws::dynamodb::{DynamoItem, IndexInfo, ScanResult, TableDetail, TableInfo};
use crate::input::{is_back, is_char, is_down, is_up, KeyCode, KeyEvent};
use crate::nav::{detail_scroll_key, detail_scroll_step, jump_last, move_down, move_last, sat_sub_usize, step_down, step_up};
use crate::order::{arrange, arranged, entry_vals, lemma_positions_where, positions_where, sort_order, stable_order, EntryVal, KeyVal, SortEntry, SortKey};
use crate::text::{chars_of, clear_string, contains_chars, copy_opt_string, copy_string, lower_chars, lowercase, owned, pop_char, push_char, push_digits, push_str, seq_contains, str_eq, texts};

verus! {

/// Which DynamoDB screen is shown.
#[derive(Debug, Clone, Copy, PartialEq, Eq, Structural)]
pub enum DdbScreen {
    Tables,
    Items,
    Detail,
}

/// A filter of the query builder: attribute, condition and value.
#[derive(Debug)]
pub struct DdbFilter {
    pub attribute: String,
    pub condition: String,
    pub value: String,
}

/// The texts of a query builder filter.
pub open spec fn filter_view(f: DdbFilter) -> (Seq<char>, Seq<char>, Seq<char>) {
    (f.attribute@, f.condition@, f.value@)
}

/// The texts of the query builder filters.
pub open spec fn filter_views(v: Seq<DdbFilter>) -> Seq<(Seq<char>, Seq<char>, Seq<char>)> {
    v.map_values(|f: DdbFilter| filter_view(f))
}

/// The state of the DynamoDB screens.
#[derive(Debug)]
pub struct DynamoDbView {
    pub screen: DdbScreen,
    pub tables: Vec<TableInfo>,
    /// The first row the table list was drawn from.
    pub tables_offset: usize,
    pub table_detail: Option<TableDetail>,
    /// Whether a page of items is shown: the page `current_page` of
    /// `all_pages`.
    pub showing_page: bool,
    pub visible_columns: Vec<String>,
    pub col_offset: usize,
    pub selected: usize,
    pub loading: bool,
    pub error: Option<String>,
    pub filter: String,
    pub filtering: bool,
    pub pending_g: bool,
    pub detail_scroll: u16,
    pub detail_total_lines: u16,
    pub detail_json: Option<String>,
    pub active_table: String,
    pub active_index: Option<String>,
    /// Query (true) or scan (false).
    pub query_mode: bool,
    pub query_pk_value: String,
    pub query_sk_condition: String,
    pub query_sk_value: String,
    pub query_descending: bool,
    pub query_summary: Option<String>,
    pub sort_col_idx: Option<usize>,
    pub sort_ascending: bool,
    /// The width of the scrolling columns; 0 fits them to the screen.
    pub col_width_override: usize,
    /// How many scrolling columns the items screen showed last.
    pub last_visible_scroll_cols: usize,
    /// The first row the item list was drawn from.
    pub items_offset: usize,
    pub index_picker_open: bool,
    pub index_picker_selected: usize,
    pub query_builder_open: bool,
    pub query_builder_field: usize,
    pub query_builder_editing: bool,
    pub query_filters: Vec<DdbFilter>,
    pub all_pages: Vec<ScanResult>,
    pub current_page: usize,
}

/// Everything of the DynamoDB state but the tables, the table description
/// and the pages, which keys do not change.
pub ghost struct DdbState {
    pub screen: DdbScreen,
    pub tables_offset: usize,
    pub showing_page: bool,
    pub visible_columns: Seq<Seq<char>>,
    pub col_offset: usize,
    pub selected: usize,
    pub loading: bool,
    pub error: Option<String>,
    pub filter: Seq<char>,
    pub filtering: bool,
    pub pending_g: bool,
    pub detail_scroll: u16,
    pub detail_total_lines: u16,
    pub detail_json: Option<Seq<char>>,
    pub active_table: Seq<char>,
    pub active_index: Option<Seq<char>>,
    pub query_mode: bool,
    pub query_pk_value: Seq<char>,
    pub query_sk_condition: Seq<char>,
    pub query_sk_value: Seq<char>,
    pub query_descending: bool,
    pub query_summary: Option<Seq<char>>,
    pub sort_col_idx: Option<usize>,
    pub sort_ascending: bool,
    pub col_width_override: usize,
    pub last_visible_scroll_cols: usize,
    pub items_offset: usize,
    pub index_picker_open: bool,
    pub index_picker_selected: usize,
    pub query_builder_open: bool,
    pub query_builder_field: usize,
    pub query_builder_editing: bool,
    pub query_filters: Seq<(Seq<char>, Seq<char>, Seq<char>)>,
    pub page_count: nat,
    pub current_page: usize,
}

/// The text of an optional string.
pub open spec fn opt_text(o: Option<String>) -> Option<Seq<char>> {
    match o {
        Some(s) => Some(s@),
        None => None,
    }
}

/// `cols` followed by each name of `more` that is not there yet, in order.
pub open spec fn append_missing(cols: Seq<Seq<char>>, more: Seq<Seq<char>>) -> Seq<Seq<char>>
    decreases more.len(),
{
    if more.len() == 0 {
        cols
    } else {
        let front = append_missing(cols, more.drop_last());
        if front.contains(more.last()) {
            front
        } else {
            front.push(more.last())
        }
    }
}

/// The first index of the table description named `name`, if any.
pub open spec fn index_named(indexes: Seq<IndexInfo>, name: Seq<char>) -> Option<IndexInfo>
    decreases indexes.len(),
{
    if indexes.len() == 0 {
        None
    } else if indexes[0].name@ == name {
        Some(indexes[0])
    } else {
        index_named(indexes.drop_first(), name)
    }
}

/// `o` with `c` added when `cols` has it and `o` does not.
pub open spec fn add_key_col(o: Seq<Seq<char>>, cols: Seq<Seq<char>>, c: Seq<char>) -> Seq<Seq<char>> {
    if cols.contains(c) && !o.contains(c) {
        o.push(c)
    } else {
        o
    }
}

/// The order the item columns are shown in, as the AWS console has it:
/// the table's partition key, then (on an index) the index's partition and
/// sort keys, then the table's sort key, then the other columns in their
/// order; without a table description, the columns as they are.
pub open spec fn ordered_columns(
    detail: Option<TableDetail>,
    active_index: Option<Seq<char>>,
    cols: Seq<Seq<char>>,
) -> Seq<Seq<char>> {
    match detail {
        None => cols,
        Some(d) => {
            let o1 = add_key_col(Seq::empty(), cols, d.partition_key@);
            let idx = match active_index {
                Some(n) => index_named(d.indexes@, n),
                None => None,
            };
            let o2 = match idx {
                Some(i) => add_key_col(o1, cols, i.partition_key@),
                None => o1,
            };
            let o3 = match idx {
                Some(i) => match i.sort_key {
                    Some(sk) => add_key_col(o2, cols, sk@),
                    None => o2,
                },
                None => o2,
            };
            let o4 = match d.sort_key {
                Some(sk) => add_key_col(o3, cols, sk@),
                None => o3,
            };
            append_missing(o4, cols)
        },
    }
}

impl DynamoDbView {
    /// The state but the tables, the table description and the pages.
    pub open spec fn state(self) -> DdbState {
        DdbState {
            screen: self.screen,
            tables_offset: self.tables_offset,
            showing_page: self.showing_page,
            visible_columns: texts(self.visible_columns@),
            col_offset: self.col_offset,
            selected: self.selected,
            loading: self.loading,
            error: self.error,
            filter: self.filter@,
            filtering: self.filtering,
            pending_g: self.pending_g,
            detail_scroll: self.detail_scroll,
            detail_total_lines: self.detail_total_lines,
            detail_json: opt_text(self.detail_json),
            active_table: self.active_table@,
            active_index: opt_text(self.active_index),
            query_mode: self.query_mode,
            query_pk_value: self.query_pk_value@,
            query_sk_condition: self.query_sk_condition@,
            query_sk_value: self.query_sk_value@,
            query_descending: self.query_descending,
            query_summary: opt_text(self.query_summary),
            sort_col_idx: self.sort_col_idx,
            sort_ascending: self.sort_ascending,
            col_width_override: self.col_width_override,
            last_visible_scroll_cols: self.last_visible_scroll_cols,
            items_offset: self.items_offset,
            index_picker_open: self.index_picker_open,
            index_picker_selected: self.index_picker_selected,
            query_builder_open: self.query_builder_open,
            query_builder_field: self.query_builder_field,
            query_builder_editing: self.query_builder_editing,
            query_filters: filter_views(self.query_filters@),
            page_count: self.all_pages@.len(),
            current_page: self.current_page,
        }
    }

    /// The tables, their description and the pages are as they were.
    pub open spec fn same_data(self, other: DynamoDbView) -> bool {
        &&& self.tables == other.tables
        &&& self.table_detail == other.table_detail
        &&& self.all_pages == other.all_pages
    }

    /// The page shown is one of the pages; with no pages the first page is
    /// current.
    pub open spec fn wf(self) -> bool {
        &&& self.showing_page ==> self.current_page < self.all_pages@.len()
        &&& self.all_pages@.len() > 0 ==> self.current_page < self.all_pages@.len()
        &&& self.all_pages@.len() == 0 ==> self.current_page == 0
    }

    /// The items of the page shown (none when no page is shown).
    pub open spec fn page_items(self) -> Seq<DynamoItem> {
        if self.showing_page && self.current_page < self.all_pages@.len() {
            self.all_pages@[self.current_page as int].items@
        } else {
            Seq::empty()
        }
    }

    /// Table `i` passes the filter (empty, or in its lowercase name).
    pub open spec fn keeps_table(self, i: int) -> bool {
        self.filter@.len() == 0 || seq_contains(lowercase(self.tables@[i].name@), lowercase(self.filter@))
    }

    /// Item `i` of the page shown passes the filter (empty, or in the
    /// lowercase text of one of its attributes).
    pub open spec fn keeps_item(self, i: int) -> bool {
        self.filter@.len() == 0 || exists|j: int|
            0 <= j < self.page_items()[i].attributes@.len() && seq_contains(
                lowercase(#[trigger] self.page_items()[i].attributes@[j].1@),
                lowercase(self.filter@),
            )
    }

    /// What table `i` is sorted by: lowercase name, status, item count or
    /// size (any other column leaves the order).
    pub open spec fn table_key(self, i: int) -> KeyVal {
        let t = self.tables@[i];
        match self.sort_col_idx {
            Some(0) => KeyVal::Text(lowercase(t.name@)),
            Some(1) => KeyVal::Text(t.status@),
            Some(2) => KeyVal::Int(t.item_count as int),
            Some(3) => KeyVal::Int(t.size_bytes as int),
            _ => KeyVal::Same,
        }
    }

    /// The positions of the tables that pass the filter.
    pub open spec fn matching_tables(self) -> Seq<usize> {
        positions_where(self.tables@.len(), |i: int| self.keeps_table(i))
    }

    /// The positions of the shown tables, in order: those that pass the
    /// filter, sorted when a column is chosen (descending when asked), ties
    /// in service order.
    pub open spec fn shown_tables(self) -> Seq<usize> {
        if self.sort_col_idx is None {
            self.matching_tables()
        } else {
            arranged(
                self.matching_tables(),
                stable_order(
                    self.matching_tables().map_values(|i: usize| EntryVal { group: 0, key: self.table_key(i as int) }),
                    !self.sort_ascending,
                ),
            )
        }
    }

    /// The positions of the items of the page shown that pass the filter,
    /// in page order.
    pub open spec fn matching_items(self) -> Seq<usize> {
        positions_where(self.page_items().len(), |i: int| self.keeps_item(i))
    }

    /// The number of rows of the screen shown.
    pub open spec fn row_count(self) -> nat {
        match self.screen {
            DdbScreen::Tables => self.shown_tables().len(),
            DdbScreen::Items => self.matching_items().len(),
            DdbScreen::Detail => 0,
        }
    }

    /// Whether the page after the current one is loaded or can be fetched.
    pub open spec fn next_page_exists(self) -> bool {
        self.current_page + 1 < self.all_pages@.len() || (self.all_pages@.len() > 0
            && self.all_pages@.last().last_key is Some)
    }

    /// Whether the page after the current one has to be fetched.
    pub open spec fn next_page_missing(self) -> bool {
        self.current_page + 1 >= self.all_pages@.len() && self.all_pages@.len() > 0
            && self.all_pages@.last().last_key is Some
    }

    /// The number of items on a page, as `page_info` counts it: that of the
    /// page shown (300 with none shown), at least 1.
    pub open spec fn page_size(self) -> nat {
        let n = if self.showing_page && self.current_page < self.all_pages@.len() {
            self.all_pages@[self.current_page as int].items@.len()
        } else {
            300
        };
        if n < 1 {
            1
        } else {
            n
        }
    }
}

/// The state the screens start in: the table list, loading; query mode
/// with `=` as sort key condition; ascending sort; four scrolling columns.
pub open spec fn is_initial(m: DdbState) -> bool {
    &&& m.screen == DdbScreen::Tables && m.tables_offset == 0 && !m.showing_page
    &&& m.visible_columns.len() == 0 && m.col_offset == 0 && m.selected == 0
    &&& m.loading && m.error is None && m.filter.len() == 0 && !m.filtering && !m.pending_g
    &&& m.detail_scroll == 0 && m.detail_total_lines == 0 && m.detail_json is None
    &&& m.active_table.len() == 0 && m.active_index is None
    &&& m.query_mode && m.query_pk_value.len() == 0 && m.query_sk_condition == "="@
    &&& m.query_sk_value.len() == 0 && !m.query_descending && m.query_summary is None
    &&& m.sort_col_idx is None && m.sort_ascending && m.col_width_override == 0
    &&& m.last_visible_scroll_cols == 4 && m.items_offset == 0
    &&& !m.index_picker_open && m.index_picker_selected == 0
    &&& !m.query_builder_open && m.query_builder_field == 0 && !m.query_builder_editing
    &&& m.query_filters.len() == 0 && m.page_count == 0 && m.current_page == 0
}

impl Default for DynamoDbView {
    fn default() -> (v: Self)
        ensures
            is_initial(v.state()),
            v.tables@.len() == 0,
            v.table_detail is None,
            v.all_pages@.len() == 0,
            v.wf(),
    {
        DynamoDbView {
            screen: DdbScreen::Tables,
            tables: Vec::new(),
            tables_offset: 0,
            table_detail: None,
            showing_page: false,
            visible_columns: Vec::new(),
            col_offset: 0,
            selected: 0,
            loading: true,
            error: None,
            filter: String::new(),
            filtering: false,
            pending_g: false,
            detail_scroll: 0,
            detail_total_lines: 0,
            detail_json: None,
            active_table: String::new(),
            active_index: None,
            query_mode: true,
            query_pk_value: String::new(),
            query_sk_condition: owned("="),
            query_sk_value: String::new(),
            query_descending: false,
            query_summary: None,
            sort_col_idx: None,
            sort_ascending: true,
            col_width_override: 0,
            last_visible_scroll_cols: 4,
            items_offset: 0,
            index_picker_open: false,
            index_picker_selected: 0,
            query_builder_open: false,
            query_builder_field: 0,
            query_builder_editing: false,
            query_filters: Vec::new(),
            all_pages: Vec::new(),
            current_page: 0,
        }
    }
}

/// Whether the names hold `name`.
fn has_name(v: &Vec<String>, name: &str) -> (r: bool)
    ensures
        r == texts(v@).contains(name@),
{
    let n = v.len();
    let mut i: usize = 0;
    while i < n
        invariant
            n == v@.len(),
            0 <= i <= n,
            forall|t: int| 0 <= t < i ==> v@[t]@ != name@,
        decreases n - i,
    {
        if str_eq(v[i].as_str(), name) {
            proof {
                assert(texts(v@)[i as int] == name@);
            }
            return true;
        }
        i = i + 1;
    }
    proof {
        if texts(v@).contains(name@) {
            let t = choose|t: int| 0 <= t < texts(v@).len() && texts(v@)[t] == name@;
            assert(v@[t]@ == name@);
        }
    }
    false
}

/// Copies of the names.
fn copy_names(v: &Vec<String>) -> (r: Vec<String>)
    ensures
        texts(r@) == texts(v@),
{
    let n = v.len();
    let mut r: Vec<String> = Vec::new();
    let mut i: usize = 0;
    while i < n
        invariant
            n == v@.len(),
            0 <= i <= n,
            texts(r@) == texts(v@).take(i as int),
        decreases n - i,
    {
        let ghost before = r@;
        let c = copy_string(&v[i]);
        r.push(c);
        proof {
            assert(texts(r@) =~= texts(before).push(c@));
            assert(texts(v@).take(i + 1) =~= texts(v@).take(i as int).push(v@[i as int]@));
        }
        i = i + 1;
    }
    proof {
        assert(texts(v@).take(n as int) =~= texts(v@));
    }
    r
}

/// Appends each name of `more` that `cols` does not hold yet.
fn push_missing(cols: &mut Vec<String>, more: &Vec<String>)
    ensures
        texts(final(cols)@) == append_missing(texts(old(cols)@), texts(more@)),
{
    let n = more.len();
    let mut i: usize = 0;
    while i < n
        invariant
            n == more@.len(),
            0 <= i <= n,
            texts(cols@) == append_missing(texts(old(cols)@), texts(more@).take(i as int)),
        decreases n - i,
    {
        proof {
            assert(texts(more@).take(i + 1).drop_last() =~= texts(more@).take(i as int));
        }
        if !has_name(cols, more[i].as_str()) {
            let c = copy_string(&more[i]);
            let ghost before = cols@;
            cols.push(c);
            proof {
                assert(texts(cols@) =~= texts(before).push(c@));
            }
        }
        i = i + 1;
    }
    proof {
        assert(texts(more@).take(n as int) =~= texts(more@));
    }
}

/// Adds `c` when `cols` has it and `o` does not (see `add_key_col`).
fn push_key_col(o: &mut Vec<String>, cols: &Vec<String>, c: &String)
    ensures
        texts(final(o)@) == add_key_col(texts(old(o)@), texts(cols@), c@),
{
    if has_name(cols, c.as_str()) && !has_name(o, c.as_str()) {
        let ghost before = o@;
        o.push(copy_string(c));
        proof {
            assert(texts(o@) =~= texts(before).push(c@));
        }
    }
}

/// The first index named `name` (see `index_named`).
fn find_index<'a>(indexes: &'a Vec<IndexInfo>, name: &str) -> (r: Option<&'a IndexInfo>)
    ensures
        match index_named(indexes@, name@) {
            Some(i) => r == Some(&i),
            None => r is None,
        },
{
    let n = indexes.len();
    let mut i: usize = 0;
    proof {
        assert(indexes@.skip(0) =~= indexes@);
    }
    while i < n
        invariant
            n == indexes@.len(),
            0 <= i <= n,
            index_named(indexes@, name@) == index_named(indexes@.skip(i as int), name@),
        decreases n - i,
    {
        proof {
            assert(indexes@.skip(i as int).drop_first() =~= indexes@.skip(i + 1));
        }
        if str_eq(indexes[i].name.as_str(), name) {
            return Some(&indexes[i]);
        }
        i = i + 1;
    }
    None
}

impl DynamoDbView {
    /// The columns in the order they are shown (see `ordered_columns`).
    pub fn order_columns(&self, columns: &Vec<String>) -> (r: Vec<String>)
        ensures
            texts(r@) == ordered_columns(self.table_detail, opt_text(self.active_index), texts(columns@)),
    {
        let mut ordered: Vec<String> = Vec::new();
        match &self.table_detail {
            None => copy_names(columns),
            Some(d) => {
                let ghost cols = texts(columns@);
                push_key_col(&mut ordered, columns, &d.partition_key);
                let ghost o1 = texts(ordered@);
                assert(o1 == add_key_col(Seq::empty(), cols, d.partition_key@)) by {
                    assert(texts(Seq::<String>::empty()) =~= Seq::<Seq<char>>::empty());
                }
                let idx = match &self.active_index {
                    Some(n) => find_index(&d.indexes, n.as_str()),
                    None => None,
                };
                let ghost spec_idx = match opt_text(self.active_index) {
                    Some(n) => index_named(d.indexes@, n),
                    None => None,
                };
                assert(match spec_idx {
                    Some(i) => idx == Some(&i),
                    None => idx is None,
                });
                match idx {
                    Some(i) => {
                        push_key_col(&mut ordered, columns, &i.partition_key);
                        match &i.sort_key {
                            Some(sk) => push_key_col(&mut ordered, columns, sk),
                            None => {},
                        }
                    },
                    None => {},
                }
                let ghost o3 = texts(ordered@);
                match &d.sort_key {
                    Some(sk) => push_key_col(&mut ordered, columns, sk),
                    None => {},
                }
                push_missing(&mut ordered, columns);
                ordered
            },
        }
    }
}

/// The query builder filters with an attribute and a value.
pub open spec fn complete_filters(v: Seq<(Seq<char>, Seq<char>, Seq<char>)>) -> Seq<(Seq<char>, Seq<char>, Seq<char>)>
    decreases v.len(),
{
    if v.len() == 0 {
        v
    } else {
        let r = complete_filters(v.drop_last());
        if v.last().0.len() > 0 && v.last().2.len() > 0 {
            r.push(v.last())
        } else {
            r
        }
    }
}

/// Esc or `h` leaving a filter or a screen: a filter being typed is
/// dropped (and that is all); otherwise the filter is dropped and the
/// screen goes back: the item to the items, the items to the tables. The
/// flag tells whether anything was left.
pub open spec fn back_step(m: DdbState) -> (DdbState, bool) {
    let leaves_detail = !m.filtering && m.screen == DdbScreen::Detail;
    let leaves_items = !m.filtering && m.screen == DdbScreen::Items;
    (
        DdbState {
            filtering: false,
            filter: Seq::empty(),
            screen: if leaves_detail {
                DdbScreen::Items
            } else if leaves_items {
                DdbScreen::Tables
            } else {
                m.screen
            },
            detail_json: if leaves_detail { None } else { m.detail_json },
            selected: if leaves_items { 0 } else { m.selected },
            loading: if leaves_items { false } else { m.loading },
            query_summary: if leaves_items { None } else { m.query_summary },
            ..m
        },
        m.filtering || m.screen != DdbScreen::Tables,
    )
}

/// The column offset that brings the sorted column into view on the items
/// screen (the first column always shows).
pub open spec fn sort_col_offset(m: DdbState) -> usize {
    sort_offset(m.sort_col_idx, m.screen, m.col_offset, m.last_visible_scroll_cols)
}

/// The column offset that brings column `sort` into view (see
/// `sort_col_offset`).
pub open spec fn sort_offset(sort: Option<usize>, screen: DdbScreen, offset: usize, shown: usize) -> usize {
    match sort {
        Some(idx) => if screen != DdbScreen::Items || idx == 0 {
            offset
        } else if idx - 1 < offset {
            (idx - 1) as usize
        } else {
            let visible = if shown < 1 { 1 } else { shown };
            if idx - 1 >= offset + visible {
                (idx - visible) as usize
            } else {
                offset
            }
        },
        None => offset,
    }
}

/// The column offset that brings column `sort` into view.
fn sort_offset_of(sort: Option<usize>, screen: DdbScreen, offset: usize, shown: usize) -> (r: usize)
    ensures
        r == sort_offset(sort, screen, offset, shown),
{
    match sort {
        Some(idx) => if screen != DdbScreen::Items || idx == 0 {
            offset
        } else if idx - 1 < offset {
            idx - 1
        } else {
            let visible = if shown < 1 { 1 } else { shown };
            if offset <= usize::MAX - visible && idx - 1 >= offset + visible {
                idx - visible
            } else {
                offset
            }
        },
        None => offset,
    }
}

impl DynamoDbView {
    /// Replaces the table list after a load.
    pub fn set_tables(&mut self, tables: Vec<TableInfo>)
        ensures
            final(self).tables == tables,
            final(self).table_detail == old(self).table_detail,
            final(self).all_pages == old(self).all_pages,
            final(self).state() == (DdbState { loading: false, error: None, selected: 0, tables_offset: 0, ..old(self).state() }),
    {
        self.tables = tables;
        self.loading = false;
        self.error = None;
        self.selected = 0;
        self.tables_offset = 0;
    }

    /// Records a failed call.
    pub fn set_error(&mut self, error: String)
        ensures
            final(self).same_data(*old(self)),
            final(self).state() == (DdbState { error: Some(error), loading: false, ..old(self).state() }),
    {
        self.error = Some(error);
        self.loading = false;
    }

    /// Starts a load.
    pub fn set_loading(&mut self)
        ensures
            final(self).same_data(*old(self)),
            final(self).state() == (DdbState { loading: true, error: None, ..old(self).state() }),
    {
        self.loading = true;
        self.error = None;
    }

    /// Opens a table's items, waiting for the first page: a query on the
    /// table with empty key values, unsorted, with automatic column widths.
    pub fn enter_table(&mut self, name: String)
        ensures
            final(self).tables == old(self).tables,
            final(self).table_detail == old(self).table_detail,
            final(self).all_pages@.len() == 0,
            final(self).state() == (DdbState {
                active_table: name@,
                active_index: None,
                screen: DdbScreen::Items,
                selected: 0,
                loading: true,
                filter: Seq::empty(),
                filtering: false,
                col_offset: 0,
                showing_page: false,
                page_count: 0,
                current_page: 0,
                items_offset: 0,
                query_mode: true,
                query_pk_value: Seq::empty(),
                query_sk_value: Seq::empty(),
                query_summary: None,
                sort_col_idx: None,
                sort_ascending: true,
                col_width_override: 0,
                ..old(self).state()
            }),
            old(self).wf() ==> final(self).wf(),
    {
        self.active_table = name;
        self.active_index = None;
        self.screen = DdbScreen::Items;
        self.selected = 0;
        self.loading = true;
        clear_string(&mut self.filter);
        self.filtering = false;
        self.col_offset = 0;
        self.showing_page = false;
        self.all_pages = Vec::new();
        self.current_page = 0;
        self.items_offset = 0;
        self.query_mode = true;
        clear_string(&mut self.query_pk_value);
        clear_string(&mut self.query_sk_value);
        self.query_summary = None;
        self.sort_col_idx = None;
        self.sort_ascending = true;
        self.col_width_override = 0;
    }

    /// Records the description of the open table.
    pub fn set_table_detail(&mut self, detail: TableDetail)
        ensures
            final(self).tables == old(self).tables,
            final(self).all_pages == old(self).all_pages,
            final(self).table_detail == Some(detail),
            final(self).state() == old(self).state(),
    {
        self.table_detail = Some(detail);
    }

    /// Shows a first page of items: its columns in console order, the
    /// cursor on the first row and column.
    pub fn set_items(&mut self, result: ScanResult)
        ensures
            final(self).tables == old(self).tables,
            final(self).table_detail == old(self).table_detail,
            final(self).all_pages@ == seq![result],
            final(self).state() == (DdbState {
                visible_columns: ordered_columns(
                    old(self).table_detail,
                    opt_text(old(self).active_index),
                    texts(result.columns@),
                ),
                showing_page: true,
                page_count: 1,
                current_page: 0,
                loading: false,
                error: None,
                selected: 0,
                col_offset: 0,
                items_offset: 0,
                ..old(self).state()
            }),
            old(self).wf() ==> final(self).wf(),
    {
        let cols = self.order_columns(&result.columns);
        self.visible_columns = cols;
        let mut pages: Vec<ScanResult> = Vec::new();
        pages.push(result);
        self.all_pages = pages;
        self.current_page = 0;
        self.showing_page = true;
        self.loading = false;
        self.error = None;
        self.selected = 0;
        self.col_offset = 0;
        self.items_offset = 0;
    }

    /// Shows a further page: new columns join at the end, and the page
    /// becomes the current one.
    pub fn add_page(&mut self, result: ScanResult)
        requires
            old(self).all_pages@.len() < usize::MAX,
        ensures
            final(self).tables == old(self).tables,
            final(self).table_detail == old(self).table_detail,
            final(self).all_pages@ == old(self).all_pages@.push(result),
            final(self).state() == (DdbState {
                visible_columns: append_missing(old(self).state().visible_columns, texts(result.columns@)),
                showing_page: true,
                page_count: old(self).all_pages@.len() + 1,
                current_page: old(self).all_pages@.len() as usize,
                loading: false,
                error: None,
                selected: 0,
                col_offset: 0,
                items_offset: 0,
                ..old(self).state()
            }),
            old(self).wf() ==> final(self).wf(),
    {
        push_missing(&mut self.visible_columns, &result.columns);
        self.all_pages.push(result);
        self.current_page = self.all_pages.len() - 1;
        self.showing_page = true;
        self.loading = false;
        self.error = None;
        self.selected = 0;
        self.col_offset = 0;
        self.items_offset = 0;
    }

    /// Shows the next loaded page, if there is one.
    pub fn next_page(&mut self)
        requires
            old(self).wf(),
        ensures
            final(self).same_data(*old(self)),
            final(self).wf(),
            final(self).state() == page_forward(old(self).state(), old(self).all_pages@.len()),
    {
        let n = self.all_pages.len();
        proof {
            assert(self.current_page < usize::MAX);
        }
        if self.current_page + 1 < n {
            self.current_page = self.current_page + 1;
            self.showing_page = true;
            self.selected = 0;
            self.col_offset = 0;
            self.items_offset = 0;
        }
    }

    /// Shows the previous page, if there is one.
    pub fn prev_page(&mut self)
        requires
            old(self).wf(),
        ensures
            final(self).same_data(*old(self)),
            final(self).wf(),
            final(self).state() == page_back(old(self).state()),
    {
        if self.current_page > 0 {
            self.current_page = self.current_page - 1;
            self.showing_page = true;
            self.selected = 0;
            self.col_offset = 0;
            self.items_offset = 0;
        }
    }

    /// Whether a next page is loaded or can be fetched.
    pub fn has_next_page(&self) -> (r: bool)
        requires
            self.wf(),
        ensures
            r == self.next_page_exists(),
    {
        let n = self.all_pages.len();
        self.current_page + 1 < n || (n > 0 && self.all_pages[n - 1].last_key.is_some())
    }

    /// Whether the next page has to be fetched.
    pub fn needs_fetch_next_page(&self) -> (r: bool)
        requires
            self.wf(),
        ensures
            r == self.next_page_missing(),
    {
        let n = self.all_pages.len();
        self.current_page + 1 >= n && n > 0 && self.all_pages[n - 1].last_key.is_some()
    }

    /// Where the page after the last loaded one starts, if anywhere.
    pub fn last_key(&self) -> (r: Option<&Vec<(String, crate::aws::dynamodb::AttrValue)>>)
        ensures
            self.all_pages@.len() == 0 ==> r is None,
            self.all_pages@.len() > 0 ==> match self.all_pages@.last().last_key {
                Some(k) => r == Some(&k),
                None => r is None,
            },
    {
        let n = self.all_pages.len();
        if n == 0 {
            None
        } else {
            match &self.all_pages[n - 1].last_key {
                Some(k) => Some(k),
                None => None,
            }
        }
    }

    /// The current page (from 1) and the number of pages: from the table's
    /// item count and the size of a page when the description is known,
    /// else the pages loaded; at least 1.
    pub fn page_info(&self) -> (r: (usize, usize))
        requires
            self.wf(),
            match self.table_detail {
                Some(d) => 0 <= d.item_count && d.item_count + self.page_size() <= usize::MAX,
                None => true,
            },
        ensures
            r.0 == self.current_page + 1,
            r.1 == ({
                let total: int = match self.table_detail {
                    Some(d) => (d.item_count + self.page_size() - 1) / (self.page_size() as int),
                    None => self.all_pages@.len() as int,
                };
                if total < 1 {
                    1
                } else {
                    total
                }
            }),
    {
        let pages = self.all_pages.len();
        let n = if self.showing_page && self.current_page < pages {
            self.all_pages[self.current_page].items.len()
        } else {
            300
        };
        let size = if n < 1 { 1 } else { n };
        proof {
            assert(self.current_page < usize::MAX);
            assert(size as nat == self.page_size());
        }
        let total = match &self.table_detail {
            Some(d) => {
                assert(d.item_count as usize == d.item_count);
                ((d.item_count as usize) + size - 1) / size
            },
            None => self.all_pages.len(),
        };
        (self.current_page + 1, if total < 1 { 1 } else { total })
    }

    /// Whether the table list still has to be loaded.
    pub fn needs_table_load(&self) -> (r: bool)
        ensures
            r == (self.screen == DdbScreen::Tables && self.loading),
    {
        self.screen == DdbScreen::Tables && self.loading
    }

    /// Whether the items still have to be loaded.
    pub fn needs_items_load(&self) -> (r: bool)
        ensures
            r == (self.screen == DdbScreen::Items && self.loading),
    {
        self.screen == DdbScreen::Items && self.loading
    }

    /// Whether keys go to a text being typed.
    pub fn is_editing(&self) -> (r: bool)
        ensures
            r == (self.query_builder_editing || self.filtering),
    {
        self.query_builder_editing || self.filtering
    }

    /// Whether a pop-up is open (it takes every key).
    pub fn has_overlay(&self) -> (r: bool)
        ensures
            r == (self.query_builder_open || self.index_picker_open),
    {
        self.query_builder_open || self.index_picker_open
    }

    /// The query builder filters with an attribute and a value, as
    /// (attribute, condition, value).
    pub fn filter_tuples(&self) -> (r: Vec<(String, String, String)>)
        ensures
            r@.map_values(|t: (String, String, String)| (t.0@, t.1@, t.2@)) == complete_filters(
                filter_views(self.query_filters@),
            ),
    {
        let ghost all = filter_views(self.query_filters@);
        let n = self.query_filters.len();
        let mut r: Vec<(String, String, String)> = Vec::new();
        let mut i: usize = 0;
        while i < n
            invariant
                n == self.query_filters@.len(),
                all == filter_views(self.query_filters@),
                0 <= i <= n,
                r@.map_values(|t: (String, String, String)| (t.0@, t.1@, t.2@)) == complete_filters(all.take(i as int)),
            decreases n - i,
        {
            let f = &self.query_filters[i];
            proof {
                assert(all.take(i + 1).drop_last() =~= all.take(i as int));
                assert(all.take(i + 1).last() == filter_view(*f));
            }
            if !f.attribute.as_str().is_empty() && !f.value.as_str().is_empty() {
                let ghost before = r@;
                let t = (copy_string(&f.attribute), copy_string(&f.condition), copy_string(&f.value));
                r.push(t);
                proof {
                    assert(r@.map_values(|t: (String, String, String)| (t.0@, t.1@, t.2@)) =~= before.map_values(
                        |t: (String, String, String)| (t.0@, t.1@, t.2@),
                    ).push(filter_view(*f)));
                }
            }
            i = i + 1;
        }
        proof {
            assert(all.take(n as int) =~= all);
        }
        r
    }

    /// The description of the open table, if loaded.
    pub fn table_detail(&self) -> (r: Option<&TableDetail>)
        ensures
            match self.table_detail {
                Some(d) => r == Some(&d),
                None => r is None,
            },
    {
        match &self.table_detail {
            Some(d) => Some(d),
            None => None,
        }
    }

    /// The name of the screen shown.
    pub fn screen_type(&self) -> (r: &'static str)
        ensures
            r@ == (match self.screen {
                DdbScreen::Tables => "tables"@,
                DdbScreen::Items => "items"@,
                DdbScreen::Detail => "detail"@,
            }),
    {
        match self.screen {
            DdbScreen::Tables => "tables",
            DdbScreen::Items => "items",
            DdbScreen::Detail => "detail",
        }
    }

    /// Where the screens are: `DynamoDB > Tables (N)`, `DynamoDB > {table}
    /// ({index or Primary})` or `DynamoDB > {table} > Item`.
    pub fn breadcrumb(&self) -> (r: String)
        ensures
            r@ == (match self.screen {
                DdbScreen::Tables => "DynamoDB > Tables ("@ + crate::text::digits(self.tables@.len()) + ")"@,
                DdbScreen::Items => "DynamoDB > "@ + self.active_table@ + " ("@ + match self.active_index {
                    Some(i) => i@,
                    None => "Primary"@,
                } + ")"@,
                DdbScreen::Detail => "DynamoDB > "@ + self.active_table@ + " > Item"@,
            }),
    {
        match self.screen {
            DdbScreen::Tables => {
                let mut r = owned("DynamoDB > Tables (");
                push_digits(&mut r, self.tables.len() as u64);
                push_str(&mut r, ")");
                r
            },
            DdbScreen::Items => {
                let mut r = owned("DynamoDB > ");
                push_str(&mut r, self.active_table.as_str());
                push_str(&mut r, " (");
                match &self.active_index {
                    Some(i) => push_str(&mut r, i.as_str()),
                    None => push_str(&mut r, "Primary"),
                }
                push_str(&mut r, ")");
                r
            },
            DdbScreen::Detail => {
                let mut r = owned("DynamoDB > ");
                push_str(&mut r, self.active_table.as_str());
                push_str(&mut r, " > Item");
                r
            },
        }
    }

    /// Opens the item detail with the item's attributes rendered as JSON.
    pub fn enter_detail(&mut self, json: String)
        ensures
            final(self).same_data(*old(self)),
            final(self).state() == (DdbState {
                detail_json: Some(json@),
                screen: DdbScreen::Detail,
                detail_scroll: 0,
                filter: Seq::empty(),
                filtering: false,
                ..old(self).state()
            }),
    {
        self.detail_json = Some(json);
        self.screen = DdbScreen::Detail;
        self.detail_scroll = 0;
        clear_string(&mut self.filter);
        self.filtering = false;
    }

    /// Esc or `h` (see `back_step`); tells whether anything was left.
    pub fn go_back(&mut self) -> (r: bool)
        ensures
            final(self).same_data(*old(self)),
            (final(self).state(), r) == back_step(old(self).state()),
    {
        let filtering = self.filtering;
        let leaves_detail = !filtering && self.screen == DdbScreen::Detail;
        let leaves_items = !filtering && self.screen == DdbScreen::Items;
        let json = if leaves_detail { None } else { copy_opt_string(&self.detail_json) };
        let summary = if leaves_items { None } else { copy_opt_string(&self.query_summary) };
        clear_string(&mut self.filter);
        self.filtering = false;
        self.screen = if leaves_detail {
            DdbScreen::Items
        } else if leaves_items {
            DdbScreen::Tables
        } else {
            self.screen
        };
        self.detail_json = json;
        self.selected = if leaves_items { 0 } else { self.selected };
        self.loading = if leaves_items { false } else { self.loading };
        self.query_summary = summary;
        filtering || leaves_detail || leaves_items
    }

    /// Records the largest useful scroll of the item detail, as drawn; the
    /// scroll offset is kept within it.
    pub fn set_detail_extent(&mut self, lines: u16)
        ensures
            final(self).same_data(*old(self)),
            final(self).state() == (DdbState {
                detail_total_lines: lines,
                detail_scroll: if old(self).detail_scroll > lines { lines } else { old(self).detail_scroll },
                ..old(self).state()
            }),
    {
        self.detail_total_lines = lines;
        if self.detail_scroll > lines {
            self.detail_scroll = lines;
        }
    }

    /// Records how many scrolling columns the items screen showed.
    pub fn set_visible_scroll_cols(&mut self, cols: usize)
        ensures
            final(self).same_data(*old(self)),
            final(self).state() == (DdbState { last_visible_scroll_cols: cols, ..old(self).state() }),
    {
        self.last_visible_scroll_cols = cols;
    }

    /// Records the first rows the table and item lists were drawn from.
    pub fn set_list_offsets(&mut self, tables_offset: usize, items_offset: usize)
        ensures
            final(self).same_data(*old(self)),
            final(self).state() == (DdbState { tables_offset, items_offset, ..old(self).state() }),
    {
        self.tables_offset = tables_offset;
        self.items_offset = items_offset;
    }
}

impl DynamoDbView {
    fn matching_table_positions(&self) -> (r: Vec<usize>)
        ensures
            r@ == self.matching_tables(),
    {
        let n = self.tables.len();
        let empty = self.filter.as_str().is_empty();
        let f = lower_chars(self.filter.as_str());
        let ghost keep = |i: int| self.keeps_table(i);
        let mut r: Vec<usize> = Vec::new();
        let mut i: usize = 0;
        while i < n
            invariant
                n == self.tables@.len(),
                empty == (self.filter@.len() == 0),
                f@ == lowercase(self.filter@),
                keep == (|i: int| self.keeps_table(i)),
                0 <= i <= n,
                r@ == positions_where(i as nat, keep),
            decreases n - i,
        {
            if empty || contains_chars(&lower_chars(self.tables[i].name.as_str()), &f) {
                r.push(i);
            }
            i = i + 1;
        }
        r
    }

    /// The positions of the shown tables, in order.
    pub fn filtered_tables(&self) -> (r: Vec<usize>)
        ensures
            r@ == self.shown_tables(),
            forall|p: int| 0 <= p < r@.len() ==> #[trigger] r@[p] < self.tables@.len(),
    {
        let pos = self.matching_table_positions();
        let _total = self.tables.len();
        proof {
            lemma_positions_where(self.tables@.len(), |i: int| self.keeps_table(i));
        }
        if self.sort_col_idx.is_none() {
            return pos;
        }
        let m = pos.len();
        let mut entries: Vec<SortEntry> = Vec::new();
        let mut p: usize = 0;
        while p < m
            invariant
                m == pos@.len(),
                pos@ == self.matching_tables(),
                forall|t: int| 0 <= t < m ==> #[trigger] pos@[t] < self.tables@.len(),
                0 <= p <= m,
                entries@.len() == p,
                forall|t: int| 0 <= t < p ==> #[trigger] entries@[t]@ == (EntryVal { group: 0, key: self.table_key(pos@[t] as int) }),
            decreases m - p,
        {
            let t = &self.tables[pos[p]];
            let key = match self.sort_col_idx {
                Some(0) => SortKey::Text(lower_chars(t.name.as_str())),
                Some(1) => SortKey::Text(chars_of(t.status.as_str())),
                Some(2) => SortKey::Int(t.item_count),
                Some(3) => SortKey::Int(t.size_bytes),
                _ => SortKey::Same,
            };
            entries.push(SortEntry { group: 0, key });
            p = p + 1;
        }
        proof {
            assert(entry_vals(entries@) =~= self.matching_tables().map_values(|i: usize| EntryVal { group: 0, key: self.table_key(i as int) }));
        }
        let order = sort_order(&entries, !self.sort_ascending);
        let r = arrange(&pos, &order);
        proof {
            assert forall|t: int| 0 <= t < r@.len() implies #[trigger] r@[t] < self.tables@.len() by {
                assert(order@[t] < pos@.len());
            }
        }
        r
    }

    fn item_matches(item: &DynamoItem, f: &Vec<char>) -> (r: bool)
        ensures
            r == exists|j: int|
                0 <= j < item.attributes@.len() && seq_contains(lowercase(#[trigger] item.attributes@[j].1@), f@),
    {
        let n = item.attributes.len();
        let mut j: usize = 0;
        while j < n
            invariant
                n == item.attributes@.len(),
                0 <= j <= n,
                forall|t: int| 0 <= t < j ==> !seq_contains(lowercase(#[trigger] item.attributes@[t].1@), f@),
            decreases n - j,
        {
            if contains_chars(&lower_chars(item.attributes[j].1.as_str()), f) {
                return true;
            }
            j = j + 1;
        }
        false
    }

    /// The positions of the items of the page shown that pass the filter,
    /// in page order (the order on screen may sort them; see `shown_items`
    /// of the application).
    pub fn filtered_items(&self) -> (r: Vec<usize>)
        requires
            self.wf(),
        ensures
            r@ == self.matching_items(),
            forall|p: int| 0 <= p < r@.len() ==> #[trigger] r@[p] < self.page_items().len(),
    {
        let empty = self.filter.as_str().is_empty();
        let f = lower_chars(self.filter.as_str());
        let ghost keep = |i: int| self.keeps_item(i);
        let mut r: Vec<usize> = Vec::new();
        if !self.showing_page {
            proof {
                lemma_positions_where(0, keep);
            }
            return r;
        }
        let items = &self.all_pages[self.current_page].items;
        let n = items.len();
        let mut i: usize = 0;
        while i < n
            invariant
                n == self.page_items().len(),
                items@ == self.page_items(),
                empty == (self.filter@.len() == 0),
                f@ == lowercase(self.filter@),
                keep == (|i: int| self.keeps_item(i)),
                0 <= i <= n,
                r@ == positions_where(i as nat, keep),
            decreases n - i,
        {
            if empty || Self::item_matches(&items[i], &f) {
                r.push(i);
            }
            i = i + 1;
        }
        proof {
            lemma_positions_where(n as nat, keep);
        }
        r
    }

    /// The number of rows of the screen shown.
    pub fn item_count(&self) -> (r: usize)
        requires
            self.wf(),
        ensures
            r == self.row_count(),
    {
        match self.screen {
            DdbScreen::Tables => self.filtered_tables().len(),
            DdbScreen::Items => self.filtered_items().len(),
            DdbScreen::Detail => 0,
        }
    }

    /// The table under the cursor, if the cursor is on a shown row.
    pub fn selected_table(&self) -> (r: Option<&TableInfo>)
        ensures
            self.selected < self.shown_tables().len() ==> r == Some(&self.tables@[self.shown_tables()[self.selected as int] as int]),
            self.selected >= self.shown_tables().len() ==> r is None,
    {
        let shown = self.filtered_tables();
        if self.selected < shown.len() {
            Some(&self.tables[shown[self.selected]])
        } else {
            None
        }
    }

    /// The item under the cursor when the rows of the page shown are in the
    /// order `order` (positions in the page).
    pub fn selected_item_in(&self, order: &Vec<usize>) -> (r: Option<&DynamoItem>)
        requires
            self.wf(),
        ensures
            (self.selected < order@.len() && order@[self.selected as int] < self.page_items().len()) ==> r == Some(
                &self.page_items()[order@[self.selected as int] as int],
            ),
            !(self.selected < order@.len() && order@[self.selected as int] < self.page_items().len()) ==> r is None,
    {
        if !self.showing_page || self.selected >= order.len() {
            return None;
        }
        let items = &self.all_pages[self.current_page].items;
        let p = order[self.selected];
        if p < items.len() {
            Some(&items[p])
        } else {
            None
        }
    }
}

/// What the keys read besides the state: the number of rows shown, the
/// table description (whether there is one, and its index names), whether
/// the active key schema has a sort key, and whether a next page exists
/// or has to be fetched.
pub ghost struct DdbCtx {
    pub rows: nat,
    pub has_detail: bool,
    pub index_names: Seq<Seq<char>>,
    pub has_sk: bool,
    pub next_exists: bool,
    pub next_missing: bool,
}

/// The names of the indexes of a table description.
pub open spec fn index_names(indexes: Seq<IndexInfo>) -> Seq<Seq<char>> {
    indexes.map_values(|i: IndexInfo| i.name@)
}

/// Whether the key schema in use (of the active index, else of the table)
/// has a sort key.
pub open spec fn schema_has_sk(detail: Option<TableDetail>, active_index: Option<Seq<char>>) -> bool {
    match detail {
        None => false,
        Some(d) => match active_index {
            Some(n) => match index_named(d.indexes@, n) {
                Some(i) => i.sort_key is Some,
                None => false,
            },
            None => d.sort_key is Some,
        },
    }
}

impl DynamoDbView {
    /// What the keys read besides the state.
    pub open spec fn ctx(self) -> DdbCtx {
        DdbCtx {
            rows: self.row_count(),
            has_detail: self.table_detail is Some,
            index_names: match self.table_detail {
                Some(d) => index_names(d.indexes@),
                None => Seq::empty(),
            },
            has_sk: schema_has_sk(self.table_detail, opt_text(self.active_index)),
            next_exists: self.next_page_exists(),
            next_missing: self.next_page_missing(),
        }
    }
}

// ---------------------------------------------------------------------------
// The item detail and the filter.
// ---------------------------------------------------------------------------

/// A key on the item detail: Esc or `h` goes back, the others scroll.
pub open spec fn detail_step(m: DdbState, k: KeyEvent) -> DdbState {
    if is_back(k) {
        back_step(DdbState { pending_g: false, ..m }).0
    } else {
        DdbState {
            detail_scroll: detail_scroll_step(m.detail_scroll, m.pending_g, m.detail_total_lines, k).0,
            pending_g: detail_scroll_step(m.detail_scroll, m.pending_g, m.detail_total_lines, k).1,
            ..m
        }
    }
}

/// The filter after a key typed into it: Esc clears it, Backspace drops
/// its last character, a character is appended.
pub open spec fn filter_text(f: Seq<char>, k: KeyEvent) -> Seq<char> {
    match k.code {
        KeyCode::Esc => Seq::empty(),
        KeyCode::Backspace => if f.len() > 0 {
            f.drop_last()
        } else {
            f
        },
        KeyCode::Char(c) => f.push(c),
        _ => f,
    }
}

/// A key typed into the filter: Esc or Enter stop typing; an edit puts the
/// cursor on the first row.
pub open spec fn filter_step(m: DdbState, k: KeyEvent) -> DdbState {
    DdbState {
        filtering: m.filtering && k.code != KeyCode::Esc && k.code != KeyCode::Enter,
        filter: filter_text(m.filter, k),
        selected: if k.code is Backspace || k.code is Char { 0 } else { m.selected },
        ..m
    }
}

// ---------------------------------------------------------------------------
// The index picker.
// ---------------------------------------------------------------------------

/// The items are to be loaded again from the first page.
pub open spec fn reload_items(m: DdbState) -> DdbState {
    DdbState { loading: true, page_count: 0, current_page: 0, items_offset: 0, showing_page: false, selected: 0, ..m }
}

/// Enter in the index picker: the picked index (the first row is the
/// table itself) becomes active, and the items load again unsorted and
/// unfiltered.
pub open spec fn pick_index(m: DdbState, names: Seq<Seq<char>>) -> DdbState {
    reload_items(
        DdbState {
            active_index: if m.index_picker_selected == 0 {
                None
            } else if m.index_picker_selected - 1 < names.len() {
                Some(names[m.index_picker_selected - 1])
            } else {
                m.active_index
            },
            index_picker_open: false,
            sort_col_idx: None,
            filter: Seq::empty(),
            ..m
        },
    )
}

/// A key in the index picker (the table and its indexes): `j`/`k` move,
/// Esc or `i` close it.
pub open spec fn picker_nav_step(m: DdbState, names: Seq<Seq<char>>, k: KeyEvent) -> DdbState {
    DdbState {
        index_picker_selected: if is_down(k) && m.index_picker_selected + 1 < names.len() + 1 {
            (m.index_picker_selected + 1) as usize
        } else if !is_down(k) && is_up(k) && m.index_picker_selected > 0 {
            (m.index_picker_selected - 1) as usize
        } else {
            m.index_picker_selected
        },
        index_picker_open: m.index_picker_open && !(!is_down(k) && !is_up(k) && (k.code == KeyCode::Esc
            || is_char(k, 'i'))),
        ..m
    }
}

/// A key in the index picker.
pub open spec fn picker_step(m: DdbState, names: Seq<Seq<char>>, k: KeyEvent) -> (DdbState, Option<Action>) {
    if k.code == KeyCode::Enter {
        (pick_index(m, names), Some(Action::DdbSwitchIndex))
    } else {
        (picker_nav_step(m, names, k), Some(Action::NoOp))
    }
}

// ---------------------------------------------------------------------------
// The query builder.
// ---------------------------------------------------------------------------

/// A field of the query builder: the mode, the partition key value, the
/// sort key condition and value (with a sort key), a filter's attribute
/// (0), condition (1) or value (2), or the button that adds a filter.
pub enum QbField {
    Mode,
    PkValue,
    SkCondition,
    SkValue,
    Filter(usize, u8),
    AddFilter,
}

/// The number of fields before the filters.
pub open spec fn qb_base(has_sk: bool) -> nat {
    if has_sk {
        4
    } else {
        2
    }
}

/// The last field of the query builder (the add button).
pub open spec fn qb_max(has_sk: bool, filters: nat) -> nat {
    qb_base(has_sk) + filters * 3
}

/// The field at position `f` of the query builder.
pub open spec fn qb_field(f: nat, has_sk: bool, filters: nat) -> QbField {
    if f == 0 {
        QbField::Mode
    } else if f == 1 {
        QbField::PkValue
    } else if has_sk && f == 2 {
        QbField::SkCondition
    } else if has_sk && f == 3 {
        QbField::SkValue
    } else if (f - qb_base(has_sk)) / 3 < filters {
        QbField::Filter(((f - qb_base(has_sk)) / 3) as usize, ((f - qb_base(has_sk)) % 3) as u8)
    } else {
        QbField::AddFilter
    }
}

/// The sort key condition after the one shown: `=`, `begins_with`, `>`,
/// `<`, `>=`, `<=`, then `=` again (an unknown one counts as `=`).
pub open spec fn next_sk_condition(c: Seq<char>) -> Seq<char> {
    if c == "begins_with"@ {
        ">"@
    } else if c == ">"@ {
        "<"@
    } else if c == "<"@ {
        ">="@
    } else if c == ">="@ {
        "<="@
    } else if c == "<="@ {
        "="@
    } else {
        "begins_with"@
    }
}

/// The filter condition after the one shown: `=`, `<>`, `>`, `<`, `>=`,
/// `<=`, `begins_with`, `contains`, then `=` again (an unknown one counts
/// as `=`).
pub open spec fn next_filter_condition(c: Seq<char>) -> Seq<char> {
    if c == "<>"@ {
        ">"@
    } else if c == ">"@ {
        "<"@
    } else if c == "<"@ {
        ">="@
    } else if c == ">="@ {
        "<="@
    } else if c == "<="@ {
        "begins_with"@
    } else if c == "begins_with"@ {
        "contains"@
    } else if c == "contains"@ {
        "="@
    } else {
        "<>"@
    }
}

/// A new filter: no attribute, `=`, no value.
pub open spec fn new_filter() -> (Seq<char>, Seq<char>, Seq<char>) {
    (Seq::empty(), "="@, Seq::empty())
}

/// A text after a key typed into it: Backspace drops the last character, a
/// character is appended, other keys leave it.
pub open spec fn typed_text(t: Seq<char>, k: KeyEvent) -> Seq<char> {
    match k.code {
        KeyCode::Backspace => if t.len() > 0 {
            t.drop_last()
        } else {
            t
        },
        KeyCode::Char(c) => t.push(c),
        _ => t,
    }
}

/// The texts of a key typed into the query builder: Esc or Enter stop
/// typing; other keys edit the partition or sort key value under the
/// cursor.
pub open spec fn qb_edit_texts(m: DdbState, has_sk: bool, k: KeyEvent) -> DdbState {
    let field = qb_field(m.query_builder_field as nat, has_sk, m.query_filters.len());
    let ends = k.code == KeyCode::Esc || k.code == KeyCode::Enter;
    DdbState {
        query_builder_editing: m.query_builder_editing && !ends,
        query_pk_value: if !ends && field is PkValue {
            typed_text(m.query_pk_value, k)
        } else {
            m.query_pk_value
        },
        query_sk_value: if !ends && field is SkValue {
            typed_text(m.query_sk_value, k)
        } else {
            m.query_sk_value
        },
        ..m
    }
}

/// The filters after a key typed into field `field`: a filter's attribute
/// or value is edited (not on Esc or Enter).
pub open spec fn typed_filters(
    fs: Seq<(Seq<char>, Seq<char>, Seq<char>)>,
    field: QbField,
    k: KeyEvent,
) -> Seq<(Seq<char>, Seq<char>, Seq<char>)> {
    let ends = k.code == KeyCode::Esc || k.code == KeyCode::Enter;
    match field {
        QbField::Filter(i, sub) => if ends {
            fs
        } else if sub == 0 {
            fs.update(i as int, (typed_text(fs[i as int].0, k), fs[i as int].1, fs[i as int].2))
        } else if sub == 2 {
            fs.update(i as int, (fs[i as int].0, fs[i as int].1, typed_text(fs[i as int].2, k)))
        } else {
            fs
        },
        _ => fs,
    }
}

/// A key while a field of the query builder is being typed: the texts and
/// the filters as typed.
pub open spec fn qb_edit_step(m: DdbState, has_sk: bool, k: KeyEvent) -> DdbState {
    let m1 = qb_edit_texts(m, has_sk, k);
    DdbState {
        query_filters: typed_filters(
            m1.query_filters,
            qb_field(m.query_builder_field as nat, has_sk, m.query_filters.len()),
            k,
        ),
        ..m1
    }
}

/// Enter or `i` on a field of the query builder: the mode switches, a text
/// field starts being typed, a condition moves to the next one, the add
/// button adds a filter.
pub open spec fn qb_activate_step(m: DdbState, has_sk: bool) -> DdbState {
    match qb_field(m.query_builder_field as nat, has_sk, m.query_filters.len()) {
        QbField::Mode => DdbState { query_mode: !m.query_mode, ..m },
        QbField::PkValue => DdbState { query_builder_editing: true, ..m },
        QbField::SkValue => DdbState { query_builder_editing: true, ..m },
        QbField::SkCondition => DdbState { query_sk_condition: next_sk_condition(m.query_sk_condition), ..m },
        QbField::Filter(i, sub) => if sub == 1 {
            DdbState {
                query_filters: m.query_filters.update(
                    i as int,
                    (m.query_filters[i as int].0, next_filter_condition(m.query_filters[i as int].1), m.query_filters[i as int].2),
                ),
                ..m
            }
        } else {
            DdbState { query_builder_editing: true, ..m }
        },
        QbField::AddFilter => DdbState { query_filters: m.query_filters.push(new_filter()), ..m },
    }
}

/// `d` on a filter of the query builder removes it (the cursor stays
/// within the fields).
pub open spec fn qb_delete_step(m: DdbState, has_sk: bool) -> DdbState {
    match qb_field(m.query_builder_field as nat, has_sk, m.query_filters.len()) {
        QbField::Filter(i, _) => {
            let max = qb_max(has_sk, (m.query_filters.len() - 1) as nat);
            DdbState {
                query_filters: m.query_filters.remove(i as int),
                query_builder_field: if m.query_builder_field > max { max as usize } else { m.query_builder_field },
                ..m
            }
        },
        _ => m,
    }
}

/// Enter, `i`, `a`, `d` or `r`: the keys of the query builder that act.
pub open spec fn is_qb_action(k: KeyEvent) -> bool {
    k.code == KeyCode::Enter || is_char(k, 'i') || is_char(k, 'a') || is_char(k, 'd') || is_char(k, 'r')
}

/// A key of the query builder that does not act: `j`/`k` (or the arrows)
/// move between fields, Tab switches the mode, Esc or `q` close the
/// builder.
pub open spec fn qb_move_step(m: DdbState, has_sk: bool, k: KeyEvent) -> DdbState {
    let other = !is_down(k) && !is_up(k) && k.code != KeyCode::Tab;
    DdbState {
        query_builder_field: field_moved(m.query_builder_field, qb_max(has_sk, m.query_filters.len()), k),
        query_mode: if !is_down(k) && !is_up(k) && k.code == KeyCode::Tab { !m.query_mode } else { m.query_mode },
        query_builder_open: m.query_builder_open && !(other && (k.code == KeyCode::Esc || is_char(k, 'q'))),
        ..m
    }
}

/// The field of the query builder after `j` or `k` (the arrows too),
/// among the fields up to `max`.
pub open spec fn field_moved(f: usize, max: nat, k: KeyEvent) -> usize {
    if is_down(k) {
        if f < max {
            (f + 1) as usize
        } else {
            f
        }
    } else if is_up(k) {
        sat_sub_usize(f, 1)
    } else {
        f
    }
}

/// `a` adds a filter and starts typing its attribute.
pub open spec fn qb_add_step(m: DdbState, has_sk: bool) -> DdbState {
    DdbState {
        query_filters: m.query_filters.push(new_filter()),
        query_builder_field: (qb_base(has_sk) + m.query_filters.len() * 3) as usize,
        query_builder_editing: true,
        ..m
    }
}

/// A key of the query builder that acts: Enter or `i` on the field, `a`
/// adds a filter, `d` removes the filter under the cursor, `r` runs the
/// query.
pub open spec fn qb_action_step(m: DdbState, has_sk: bool, k: KeyEvent) -> (DdbState, Option<Action>) {
    if k.code == KeyCode::Enter || is_char(k, 'i') {
        (qb_activate_step(m, has_sk), Some(Action::NoOp))
    } else if is_char(k, 'a') {
        (qb_add_step(m, has_sk), Some(Action::NoOp))
    } else if is_char(k, 'd') {
        (qb_delete_step(m, has_sk), Some(Action::NoOp))
    } else {
        (reload_items(DdbState { query_builder_open: false, ..m }), Some(Action::DdbRunQuery))
    }
}

/// A key in the query builder while nothing is being typed.
pub open spec fn qb_menu_step(m: DdbState, has_sk: bool, k: KeyEvent) -> (DdbState, Option<Action>) {
    if is_qb_action(k) {
        qb_action_step(m, has_sk, k)
    } else {
        (qb_move_step(m, has_sk, k), Some(Action::NoOp))
    }
}

/// A key in the query builder.
pub open spec fn qb_step(m: DdbState, has_sk: bool, k: KeyEvent) -> (DdbState, Option<Action>) {
    if m.query_builder_editing {
        (qb_edit_step(m, has_sk, k), Some(Action::NoOp))
    } else {
        qb_menu_step(m, has_sk, k)
    }
}

// ---------------------------------------------------------------------------
// The table and item lists.
// ---------------------------------------------------------------------------

/// `j`/`k` (or the arrows), `g` and `G`: the cursor keys of the lists.
pub open spec fn is_row_nav(k: KeyEvent) -> bool {
    is_down(k) || is_up(k) || is_char(k, 'g') || is_char(k, 'G')
}

/// A cursor key on a list of `rows` rows: a first `g` waits for a second.
pub open spec fn row_nav_step(m: DdbState, rows: nat, k: KeyEvent) -> DdbState {
    let count = rows as usize;
    DdbState {
        pending_g: is_char(k, 'g') && !is_down(k) && !is_up(k) && !m.pending_g,
        selected: moved_row(m.selected, m.pending_g, count, k),
        ..m
    }
}

/// The cursor after `j`/`k` (or the arrows), `gg` or `G` on `count` rows.
pub open spec fn moved_row(sel: usize, pending_g: bool, count: usize, k: KeyEvent) -> usize {
    if is_down(k) {
        step_down(sel, count)
    } else if is_up(k) {
        step_up(sel)
    } else if is_char(k, 'g') {
        if pending_g {
            0
        } else {
            sel
        }
    } else {
        jump_last(sel, count)
    }
}

/// The number of columns the sort can be on: the item columns, or the four
/// table columns.
pub open spec fn sort_columns(m: DdbState) -> nat {
    match m.screen {
        DdbScreen::Items => m.visible_columns.len(),
        DdbScreen::Tables => 4,
        DdbScreen::Detail => 0,
    }
}

/// The sorted column after `s` (the next column, none after the last, the
/// first after none) or `S` (the other way round), among `max` columns.
pub open spec fn next_sort_col(c: Option<usize>, max: nat, forward: bool) -> Option<usize> {
    if forward {
        match c {
            None => Some(0),
            Some(i) => if i + 1 < max {
                Some((i + 1) as usize)
            } else {
                None
            },
        }
    } else {
        match c {
            None => Some((max - 1) as usize),
            Some(i) => if i == 0 {
                None
            } else {
                Some((i - 1) as usize)
            },
        }
    }
}

/// `s` or `S` on a list: the sort moves to the next or previous column
/// (ascending when it starts from none), the cursor goes to the first row
/// and the sorted column comes into view.
pub open spec fn sort_key_step(m: DdbState, forward: bool) -> DdbState {
    let max = sort_columns(m);
    if max == 0 {
        DdbState { pending_g: false, ..m }
    } else {
        let m1 = DdbState {
            pending_g: false,
            sort_col_idx: next_sort_col(m.sort_col_idx, max, forward),
            sort_ascending: if m.sort_col_idx is None { true } else { m.sort_ascending },
            selected: 0,
            ..m
        };
        DdbState { col_offset: sort_col_offset(m1), ..m1 }
    }
}

/// `x`: the other sort direction (with a sorted column).
pub open spec fn flip_sort_step(m: DdbState) -> DdbState {
    DdbState {
        pending_g: false,
        sort_ascending: if m.sort_col_idx is Some { !m.sort_ascending } else { m.sort_ascending },
        selected: if m.sort_col_idx is Some { 0 } else { m.selected },
        ..m
    }
}

/// `X` on the items of a query: back to an empty query on the table,
/// loading again.
pub open spec fn clear_query_step(m: DdbState) -> (DdbState, Option<Action>) {
    if m.screen == DdbScreen::Items && m.query_summary is Some {
        (
            reload_items(
                DdbState {
                    pending_g: false,
                    query_mode: true,
                    query_pk_value: Seq::empty(),
                    query_sk_value: Seq::empty(),
                    query_summary: None,
                    ..m
                },
            ),
            Some(Action::DdbSwitchIndex),
        )
    } else {
        (DdbState { pending_g: false, ..m }, Some(Action::NoOp))
    }
}

/// `s`, `S`, `x` or `X`.
pub open spec fn is_sort_key(k: KeyEvent) -> bool {
    is_char(k, 's') || is_char(k, 'S') || is_char(k, 'x') || is_char(k, 'X')
}

/// A sort key on a list.
pub open spec fn sort_step(m: DdbState, k: KeyEvent) -> (DdbState, Option<Action>) {
    if is_char(k, 's') {
        (sort_key_step(m, true), Some(Action::NoOp))
    } else if is_char(k, 'S') {
        (sort_key_step(m, false), Some(Action::NoOp))
    } else if is_char(k, 'x') {
        (flip_sort_step(m), Some(Action::NoOp))
    } else {
        clear_query_step(m)
    }
}

/// `l` or →, `h` or ←, `+` or `=`, `-`, `0`: the column keys.
pub open spec fn is_column_key(k: KeyEvent) -> bool {
    is_char(k, 'l') || k.code == KeyCode::Right || is_char(k, 'h') || k.code == KeyCode::Left || is_char(k, '+')
        || is_char(k, '=') || is_char(k, '-') || is_char(k, '0')
}

/// The column width after `+` or `=` (wider by 4, at most 60), `-`
/// (narrower by 4, at least 8) or `0` (fitted again); a fitted width
/// counts as 16.
pub open spec fn width_after(w: usize, k: KeyEvent) -> usize {
    let base: usize = if w == 0 { 16 } else { w };
    if is_char(k, '+') || is_char(k, '=') {
        if base + 4 < 60 {
            (base + 4) as usize
        } else {
            60
        }
    } else if is_char(k, '-') {
        if base - 4 > 8 {
            (base - 4) as usize
        } else {
            8
        }
    } else {
        0
    }
}

/// The column offset after `l` with `cols` columns: one more, at most
/// `cols - 2` (the first column always shows); unchanged with one column.
pub open spec fn scrolled_right(offset: usize, cols: nat) -> usize {
    if cols > 1 {
        if offset + 1 < cols - 2 {
            (offset + 1) as usize
        } else {
            (cols - 2) as usize
        }
    } else {
        offset
    }
}

/// A column key: on the items `l` scrolls the columns right (the first
/// stays), `h` left, and the width keys size them; `h` elsewhere goes back.
pub open spec fn column_step(m: DdbState, k: KeyEvent) -> (DdbState, Option<Action>) {
    let items = m.screen == DdbScreen::Items;
    if is_char(k, 'l') || k.code == KeyCode::Right {
        (
            DdbState {
                col_offset: if items { scrolled_right(m.col_offset, m.visible_columns.len()) } else { m.col_offset },
                ..m
            },
            Some(Action::NoOp),
        )
    } else if is_char(k, 'h') || k.code == KeyCode::Left {
        if items {
            (DdbState { col_offset: sat_sub_usize(m.col_offset, 1), ..m }, Some(Action::NoOp))
        } else {
            let (m2, went) = back_step(m);
            (m2, if went { Some(Action::ServiceBack) } else { None })
        }
    } else {
        (
            DdbState {
                col_width_override: if items { width_after(m.col_width_override, k) } else { m.col_width_override },
                ..m
            },
            Some(Action::NoOp),
        )
    }
}

/// The position of `name` among the index names, if there.
pub open spec fn index_position(names: Seq<Seq<char>>, name: Seq<char>) -> Option<nat>
    decreases names.len(),
{
    if names.len() == 0 {
        None
    } else if names[0] == name {
        Some(0)
    } else {
        match index_position(names.drop_first(), name) {
            Some(p) => Some(p + 1),
            None => None,
        }
    }
}

/// The next of `pages` loaded pages shown, if there is one.
pub open spec fn page_forward(m: DdbState, pages: nat) -> DdbState {
    if m.current_page + 1 < pages {
        to_page(m, (m.current_page + 1) as usize)
    } else {
        m
    }
}

/// The previous page shown, if there is one.
pub open spec fn page_back(m: DdbState) -> DdbState {
    if m.current_page > 0 {
        to_page(m, (m.current_page - 1) as usize)
    } else {
        m
    }
}

/// `n`, `N`, `r`, `i` or `q`.
pub open spec fn is_page_key(k: KeyEvent) -> bool {
    is_char(k, 'n') || is_char(k, 'N') || is_char(k, 'r') || is_char(k, 'i') || is_char(k, 'q')
}

/// The next page shown, the cursor on its first row and column.
pub open spec fn to_page(m: DdbState, page: usize) -> DdbState {
    DdbState { current_page: page, showing_page: true, selected: 0, col_offset: 0, items_offset: 0, ..m }
}

/// `n` (the next page: fetched when it is not loaded yet), `N` (the
/// previous page), `r` (after an error: load again), `i` (the index picker,
/// on the active index) or `q` (the query builder), on the items with a
/// table description for the last two.
pub open spec fn page_step(m: DdbState, c: DdbCtx, k: KeyEvent) -> (DdbState, Option<Action>) {
    let items = m.screen == DdbScreen::Items;
    if is_char(k, 'n') {
        if items && c.next_exists {
            if c.next_missing {
                (DdbState { loading: true, ..m }, Some(Action::DdbNextPage))
            } else {
                (to_page(m, (m.current_page + 1) as usize), Some(Action::NoOp))
            }
        } else {
            (m, Some(Action::NoOp))
        }
    } else if is_char(k, 'N') {
        if items && m.current_page > 0 {
            (to_page(m, (m.current_page - 1) as usize), Some(Action::NoOp))
        } else {
            (m, Some(Action::NoOp))
        }
    } else if is_char(k, 'r') {
        if m.error is Some {
            (DdbState { loading: true, error: None, ..m }, Some(Action::ServiceBack))
        } else {
            (m, Some(Action::NoOp))
        }
    } else if is_char(k, 'i') {
        if items && c.has_detail {
            (
                DdbState {
                    index_picker_open: true,
                    index_picker_selected: match m.active_index {
                        None => 0,
                        Some(n) => match index_position(c.index_names, n) {
                            Some(p) => (p + 1) as usize,
                            None => 0,
                        },
                    },
                    ..m
                },
                Some(Action::NoOp),
            )
        } else {
            (m, Some(Action::NoOp))
        }
    } else {
        if items && c.has_detail {
            (
                DdbState { query_builder_open: true, query_builder_field: 0, query_builder_editing: false, ..m },
                Some(Action::NoOp),
            )
        } else {
            (m, Some(Action::NoOp))
        }
    }
}

/// `/` starts a filter, Enter opens the row, Esc goes back, and any other
/// key ends a pending `g`.
pub open spec fn rest_step(m: DdbState, k: KeyEvent) -> (DdbState, Option<Action>) {
    if is_char(k, '/') {
        (DdbState { filtering: true, filter: Seq::empty(), ..m }, Some(Action::NoOp))
    } else if k.code == KeyCode::Enter {
        (m, Some(Action::ServiceEnter))
    } else if k.code == KeyCode::Esc {
        let (m2, went) = back_step(m);
        (m2, if went { Some(Action::ServiceBack) } else { None })
    } else {
        (DdbState { pending_g: false, ..m }, Some(Action::NoOp))
    }
}

/// A key on the table or item list (no pop-up, no filter being typed).
pub open spec fn list_step(m: DdbState, c: DdbCtx, k: KeyEvent) -> (DdbState, Option<Action>) {
    if is_row_nav(k) {
        (row_nav_step(m, c.rows, k), Some(Action::NoOp))
    } else if is_sort_key(k) {
        sort_step(m, k)
    } else if is_column_key(k) {
        column_step(m, k)
    } else if is_page_key(k) {
        page_step(m, c, k)
    } else {
        rest_step(m, k)
    }
}

/// What a key does to the DynamoDB screens: the item detail, a filter
/// being typed, the index picker and the query builder take keys first,
/// then the lists.
pub open spec fn key_step(m: DdbState, c: DdbCtx, k: KeyEvent) -> (DdbState, Option<Action>) {
    if m.screen == DdbScreen::Detail {
        (detail_step(m, k), Some(Action::NoOp))
    } else if m.filtering {
        (filter_step(m, k), Some(Action::NoOp))
    } else if m.index_picker_open {
        picker_step(m, c.index_names, k)
    } else if m.query_builder_open {
        qb_step(m, c.has_sk, k)
    } else {
        list_step(m, c, k)
    }
}

/// What a key does to the DynamoDB view: the tables, the table
/// description and the pages stay (the pages may be dropped), and the rest
/// of the view and the answer are as `key_step` says.
pub open spec fn key_handled(before: DynamoDbView, key: KeyEvent, after: DynamoDbView, answer: Option<Action>) -> bool {
    &&& after.tables == before.tables
    &&& after.table_detail == before.table_detail
    &&& (after.all_pages@.len() == 0 || after.all_pages == before.all_pages)
    &&& (after.state(), answer) == key_step(before.state(), before.ctx(), key)
}

/// The filter after a key typed into it (see `filter_text`).
fn filter_after(f: &String, key: &KeyEvent) -> (r: String)
    ensures
        r@ == filter_text(f@, *key),
{
    let mut t = copy_string(f);
    match key.code {
        KeyCode::Esc => clear_string(&mut t),
        KeyCode::Backspace => {
            pop_char(&mut t);
        },
        KeyCode::Char(c) => push_char(&mut t, c),
        _ => {},
    }
    t
}

/// The text after a key typed into it (see `typed_text`).
fn text_after(t: &String, key: &KeyEvent) -> (r: String)
    ensures
        r@ == typed_text(t@, *key),
{
    let mut r = copy_string(t);
    match key.code {
        KeyCode::Backspace => {
            pop_char(&mut r);
        },
        KeyCode::Char(c) => push_char(&mut r, c),
        _ => {},
    }
    r
}

/// The next sorted column (see `next_sort_col`).
fn next_sort(c: Option<usize>, max: usize, forward: bool) -> (r: Option<usize>)
    requires
        max > 0,
    ensures
        r == next_sort_col(c, max as nat, forward),
{
    if forward {
        match c {
            None => Some(0),
            Some(i) => if i < max - 1 {
                Some(i + 1)
            } else {
                None
            },
        }
    } else {
        match c {
            None => Some(max - 1),
            Some(i) => if i == 0 {
                None
            } else {
                Some(i - 1)
            },
        }
    }
}

/// The column width after a width key (see `width_after`).
fn width_key(w: usize, key: &KeyEvent) -> (r: usize)
    ensures
        r == width_after(w, *key),
{
    let base: usize = if w == 0 { 16 } else { w };
    if key.char_is('+') || key.char_is('=') {
        if base < 56 {
            base + 4
        } else {
            60
        }
    } else if key.char_is('-') {
        if base > 12 {
            base - 4
        } else {
            8
        }
    } else {
        0
    }
}

/// The field at a position of the query builder (see `qb_field`).
fn qb_field_at(f: usize, has_sk: bool, filters: usize) -> (r: QbField)
    ensures
        r == qb_field(f as nat, has_sk, filters as nat),
{
    let base: usize = if has_sk { 4 } else { 2 };
    if f == 0 {
        QbField::Mode
    } else if f == 1 {
        QbField::PkValue
    } else if has_sk && f == 2 {
        QbField::SkCondition
    } else if has_sk && f == 3 {
        QbField::SkValue
    } else if (f - base) / 3 < filters {
        QbField::Filter((f - base) / 3, ((f - base) % 3) as u8)
    } else {
        QbField::AddFilter
    }
}

/// The next sort key condition (see `next_sk_condition`).
fn next_sk(c: &str) -> (r: String)
    ensures
        r@ == next_sk_condition(c@),
{
    if str_eq(c, "begins_with") {
        owned(">")
    } else if str_eq(c, ">") {
        owned("<")
    } else if str_eq(c, "<") {
        owned(">=")
    } else if str_eq(c, ">=") {
        owned("<=")
    } else if str_eq(c, "<=") {
        owned("=")
    } else {
        owned("begins_with")
    }
}

/// The next filter condition (see `next_filter_condition`).
fn next_filter_cond(c: &str) -> (r: String)
    ensures
        r@ == next_filter_condition(c@),
{
    if str_eq(c, "<>") {
        owned(">")
    } else if str_eq(c, ">") {
        owned("<")
    } else if str_eq(c, "<") {
        owned(">=")
    } else if str_eq(c, ">=") {
        owned("<=")
    } else if str_eq(c, "<=") {
        owned("begins_with")
    } else if str_eq(c, "begins_with") {
        owned("contains")
    } else if str_eq(c, "contains") {
        owned("=")
    } else {
        owned("<>")
    }
}

/// A new filter (see `new_filter`).
fn fresh_filter() -> (f: DdbFilter)
    ensures
        filter_view(f) == new_filter(),
{
    DdbFilter { attribute: String::new(), condition: owned("="), value: String::new() }
}

/// The filters with filter `i` replaced by the one `edit` makes of it.
fn replace_filter(fs: Vec<DdbFilter>, i: usize, f: DdbFilter) -> (r: Vec<DdbFilter>)
    requires
        i < fs@.len(),
    ensures
        filter_views(r@) == filter_views(fs@).update(i as int, filter_view(f)),
{
    let mut fs = fs;
    let ghost before = fs@;
    let _old = fs.remove(i);
    fs.insert(i, f);
    proof {
        assert(filter_views(fs@) =~= filter_views(before).update(i as int, filter_view(f)));
    }
    fs
}

impl DynamoDbView {
    /// The names of the table's indexes.
    fn index_name_list(&self) -> (r: Vec<String>)
        ensures
            texts(r@) == self.ctx().index_names,
    {
        let mut r: Vec<String> = Vec::new();
        match &self.table_detail {
            Some(d) => {
                let n = d.indexes.len();
                let mut i: usize = 0;
                while i < n
                    invariant
                        n == d.indexes@.len(),
                        0 <= i <= n,
                        texts(r@) == index_names(d.indexes@).take(i as int),
                    decreases n - i,
                {
                    let ghost before = r@;
                    let c = copy_string(&d.indexes[i].name);
                    r.push(c);
                    proof {
                        assert(texts(r@) =~= texts(before).push(c@));
                        assert(index_names(d.indexes@).take(i + 1) =~= index_names(d.indexes@).take(i as int).push(
                            d.indexes@[i as int].name@,
                        ));
                    }
                    i = i + 1;
                }
                proof {
                    assert(index_names(d.indexes@).take(n as int) =~= index_names(d.indexes@));
                }
                r
            },
            None => {
                proof {
                    assert(texts(r@) =~= Seq::<Seq<char>>::empty());
                }
                r
            },
        }
    }

    /// Whether the key schema in use has a sort key (see `schema_has_sk`).
    pub fn qb_has_sk(&self) -> (r: bool)
        ensures
            r == self.ctx().has_sk,
    {
        match &self.table_detail {
            None => false,
            Some(d) => match &self.active_index {
                Some(n) => match find_index(&d.indexes, n.as_str()) {
                    Some(i) => i.sort_key.is_some(),
                    None => false,
                },
                None => d.sort_key.is_some(),
            },
        }
    }

    /// The field of the query builder at position `f` (see `qb_field`).
    pub fn qb_field_type(&self, f: usize) -> (r: QbField)
        ensures
            r == qb_field(f as nat, self.ctx().has_sk, self.query_filters@.len()),
    {
        let has_sk = self.qb_has_sk();
        qb_field_at(f, has_sk, self.query_filters.len())
    }

    // ---- the item detail and the filter ----

    fn detail_back_key(self) -> (v: Self)
        ensures
            v.same_data(self),
            v.state() == back_step(DdbState { pending_g: false, ..self.state() }).0,
    {
        let mut v = self;
        v.pending_g = false;
        v.go_back();
        v
    }

    fn detail_scroll_leaf(self, key: &KeyEvent) -> (v: Self)
        ensures
            v.same_data(self),
            v.state() == (DdbState {
                detail_scroll: detail_scroll_step(self.detail_scroll, self.pending_g, self.detail_total_lines, *key).0,
                pending_g: detail_scroll_step(self.detail_scroll, self.pending_g, self.detail_total_lines, *key).1,
                ..self.state()
            }),
    {
        let (scroll, pending) = detail_scroll_key(self.detail_scroll, self.pending_g, self.detail_total_lines, key);
        let mut v = self;
        v.detail_scroll = scroll;
        v.pending_g = pending;
        v
    }

    fn detail_key(self, key: &KeyEvent) -> (v: Self)
        ensures
            v.same_data(self),
            v.state() == detail_step(self.state(), *key),
    {
        if key.back() {
            self.detail_back_key()
        } else {
            self.detail_scroll_leaf(key)
        }
    }

    fn filter_key(self, key: &KeyEvent) -> (v: Self)
        ensures
            v.same_data(self),
            v.state() == filter_step(self.state(), *key),
    {
        let f = filter_after(&self.filter, key);
        let stops = key.code == KeyCode::Esc || key.code == KeyCode::Enter;
        let edits = match key.code {
            KeyCode::Backspace | KeyCode::Char(_) => true,
            _ => false,
        };
        let mut v = self;
        v.filter = f;
        v.filtering = v.filtering && !stops;
        v.selected = if edits { 0 } else { v.selected };
        v
    }

    // ---- the index picker ----

    fn reload_leaf(self) -> (v: Self)
        ensures
            v.tables == self.tables,
            v.table_detail == self.table_detail,
            v.all_pages@.len() == 0,
            v.state() == reload_items(self.state()),
    {
        let mut v = self;
        v.loading = true;
        v.all_pages = Vec::new();
        v.current_page = 0;
        v.items_offset = 0;
        v.showing_page = false;
        v.selected = 0;
        v
    }

    fn pick_index_key(self, names: &Vec<String>) -> (v: Self)
        requires
            texts(names@) == self.ctx().index_names,
        ensures
            v.tables == self.tables,
            v.table_detail == self.table_detail,
            v.all_pages@.len() == 0,
            v.state() == pick_index(self.state(), self.ctx().index_names),
    {
        let sel = self.index_picker_selected;
        let active = if sel == 0 {
            None
        } else if sel - 1 < names.len() {
            proof {
                assert(texts(names@)[sel - 1] == names@[sel - 1]@);
            }
            Some(copy_string(&names[sel - 1]))
        } else {
            copy_opt_string(&self.active_index)
        };
        let mut v = self;
        v.active_index = active;
        v.index_picker_open = false;
        v.sort_col_idx = None;
        v.filter = String::new();
        v.reload_leaf()
    }

    fn picker_nav_key(self, key: &KeyEvent, count: usize) -> (v: Self)
        requires
            count == self.ctx().index_names.len(),
        ensures
            v.same_data(self),
            v.state() == picker_nav_step(self.state(), self.ctx().index_names, *key),
    {
        let sel = self.index_picker_selected;
        let down = key.down();
        let up = key.up();
        let closes = !down && !up && (key.code == KeyCode::Esc || key.char_is('i'));
        let moved = if down && sel < count {
            sel + 1
        } else if !down && up && sel > 0 {
            sel - 1
        } else {
            sel
        };
        let mut v = self;
        v.index_picker_selected = moved;
        v.index_picker_open = v.index_picker_open && !closes;
        v
    }

    fn picker_key(self, key: &KeyEvent) -> (res: (Self, Option<Action>))
        ensures
            res.0.tables == self.tables,
            res.0.table_detail == self.table_detail,
            res.0.all_pages@.len() == 0 || res.0.all_pages == self.all_pages,
            (res.0.state(), res.1) == picker_step(self.state(), self.ctx().index_names, *key),
    {
        let names = self.index_name_list();
        if key.code == KeyCode::Enter {
            (self.pick_index_key(&names), Some(Action::DdbSwitchIndex))
        } else {
            let count = names.len();
            (self.picker_nav_key(key, count), Some(Action::NoOp))
        }
    }
}

/// The filters after a key typed into field `field` (see `qb_edit_step`).
fn filters_typed(fs: Vec<DdbFilter>, field: &QbField, key: &KeyEvent) -> (r: Vec<DdbFilter>)
    requires
        match *field {
            QbField::Filter(i, _) => i < fs@.len(),
            _ => true,
        },
    ensures
        filter_views(r@) == typed_filters(filter_views(fs@), *field, *key),
{
    let ends = key.code == KeyCode::Esc || key.code == KeyCode::Enter;
    match field {
        QbField::Filter(i, sub) => {
            let i = *i;
            let sub = *sub;
            if ends || (sub != 0 && sub != 2) {
                fs
            } else {
                let f = &fs[i];
                let attribute = if sub == 0 { text_after(&f.attribute, key) } else { copy_string(&f.attribute) };
                let condition = copy_string(&f.condition);
                let value = if sub == 2 { text_after(&f.value, key) } else { copy_string(&f.value) };
                replace_filter(fs, i, DdbFilter { attribute, condition, value })
            }
        },
        _ => fs,
    }
}

/// The field after a move (see `field_moved`).
fn field_after_move(f: usize, max: usize, key: &KeyEvent) -> (r: usize)
    ensures
        r == field_moved(f, max as nat, *key),
{
    if key.down() {
        if f < max {
            f + 1
        } else {
            f
        }
    } else if key.up() {
        if f > 0 {
            f - 1
        } else {
            0
        }
    } else {
        f
    }
}

/// The filters with the condition of filter `i` moved on.
fn filters_cycled(fs: Vec<DdbFilter>, i: usize) -> (r: Vec<DdbFilter>)
    requires
        i < fs@.len(),
    ensures
        filter_views(r@) == filter_views(fs@).update(
            i as int,
            (filter_views(fs@)[i as int].0, next_filter_condition(filter_views(fs@)[i as int].1), filter_views(fs@)[i as int].2),
        ),
{
    let f = &fs[i];
    let nf = DdbFilter {
        attribute: copy_string(&f.attribute),
        condition: next_filter_cond(f.condition.as_str()),
        value: copy_string(&f.value),
    };
    replace_filter(fs, i, nf)
}

/// The filters with a new one at the end.
fn filters_added(fs: Vec<DdbFilter>) -> (r: Vec<DdbFilter>)
    ensures
        filter_views(r@) == filter_views(fs@).push(new_filter()),
{
    let mut fs = fs;
    let ghost before = fs@;
    let f = fresh_filter();
    fs.push(f);
    proof {
        assert(filter_views(fs@) =~= filter_views(before).push(new_filter()));
    }
    fs
}

/// The filters without filter `i`.
fn filters_removed(fs: Vec<DdbFilter>, i: usize) -> (r: Vec<DdbFilter>)
    requires
        i < fs@.len(),
    ensures
        filter_views(r@) == filter_views(fs@).remove(i as int),
{
    let mut fs = fs;
    let ghost before = fs@;
    let _gone = fs.remove(i);
    proof {
        assert(filter_views(fs@) =~= filter_views(before).remove(i as int));
    }
    fs
}

impl DynamoDbView {
    // ---- the query builder ----

    fn take_filters(&mut self) -> (fs: Vec<DdbFilter>)
        ensures
            fs == old(self).query_filters,
            final(self).query_filters@.len() == 0,
            final(self).same_data(*old(self)),
            final(self).state() == (DdbState { query_filters: Seq::empty(), ..old(self).state() }),
    {
        let mut fs: Vec<DdbFilter> = Vec::new();
        std::mem::swap(&mut fs, &mut self.query_filters);
        proof {
            assert(filter_views(self.query_filters@) =~= Seq::<(Seq<char>, Seq<char>, Seq<char>)>::empty());
        }
        fs
    }

    fn qb_texts_leaf(self, key: &KeyEvent, has_sk: bool) -> (v: Self)
        ensures
            v.same_data(self),
            v.state() == qb_edit_texts(self.state(), has_sk, *key),
    {
        let field = qb_field_at(self.query_builder_field, has_sk, self.query_filters.len());
        let ends = key.code == KeyCode::Esc || key.code == KeyCode::Enter;
        let pk_typed = !ends && match field {
            QbField::PkValue => true,
            _ => false,
        };
        let sk_typed = !ends && match field {
            QbField::SkValue => true,
            _ => false,
        };
        let pk = if pk_typed { text_after(&self.query_pk_value, key) } else { copy_string(&self.query_pk_value) };
        let sk = if sk_typed { text_after(&self.query_sk_value, key) } else { copy_string(&self.query_sk_value) };
        let mut v = self;
        v.query_builder_editing = v.query_builder_editing && !ends;
        v.query_pk_value = pk;
        v.query_sk_value = sk;
        v
    }

    fn qb_filters_leaf(self, field: &QbField, key: &KeyEvent) -> (v: Self)
        requires
            match *field {
                QbField::Filter(i, _) => i < self.query_filters@.len(),
                _ => true,
            },
        ensures
            v.same_data(self),
            v.state() == (DdbState { query_filters: typed_filters(self.state().query_filters, *field, *key), ..self.state() }),
    {
        let mut v = self;
        let fs = v.take_filters();
        v.query_filters = filters_typed(fs, field, key);
        v
    }

    fn qb_edit_key(self, key: &KeyEvent, has_sk: bool) -> (v: Self)
        ensures
            v.same_data(self),
            v.state() == qb_edit_step(self.state(), has_sk, *key),
    {
        let field = qb_field_at(self.query_builder_field, has_sk, self.query_filters.len());
        let v1 = self.qb_texts_leaf(key, has_sk);
        v1.qb_filters_leaf(&field, key)
    }

    fn qb_toggle_mode_leaf(self) -> (v: Self)
        ensures
            v.same_data(self),
            v.state() == (DdbState { query_mode: !self.query_mode, ..self.state() }),
    {
        let mut v = self;
        v.query_mode = !v.query_mode;
        v
    }

    fn qb_start_typing_leaf(self) -> (v: Self)
        ensures
            v.same_data(self),
            v.state() == (DdbState { query_builder_editing: true, ..self.state() }),
    {
        let mut v = self;
        v.query_builder_editing = true;
        v
    }

    fn qb_next_sk_leaf(self) -> (v: Self)
        ensures
            v.same_data(self),
            v.state() == (DdbState { query_sk_condition: next_sk_condition(self.query_sk_condition@), ..self.state() }),
    {
        let c = next_sk(self.query_sk_condition.as_str());
        let mut v = self;
        v.query_sk_condition = c;
        v
    }

    fn qb_cycle_filter_leaf(self, i: usize) -> (v: Self)
        requires
            i < self.query_filters@.len(),
        ensures
            v.same_data(self),
            v.state() == (DdbState {
                query_filters: self.state().query_filters.update(
                    i as int,
                    (self.state().query_filters[i as int].0, next_filter_condition(self.state().query_filters[i as int].1), self.state().query_filters[i as int].2),
                ),
                ..self.state()
            }),
    {
        let mut v = self;
        let fs = v.take_filters();
        v.query_filters = filters_cycled(fs, i);
        v
    }

    fn qb_push_filter_leaf(self) -> (v: Self)
        ensures
            v.same_data(self),
            v.state() == (DdbState { query_filters: self.state().query_filters.push(new_filter()), ..self.state() }),
    {
        let mut v = self;
        let fs = v.take_filters();
        v.query_filters = filters_added(fs);
        v
    }

    fn qb_activate_key(self, has_sk: bool) -> (v: Self)
        ensures
            v.same_data(self),
            v.state() == qb_activate_step(self.state(), has_sk),
    {
        let field = qb_field_at(self.query_builder_field, has_sk, self.query_filters.len());
        match field {
            QbField::Mode => self.qb_toggle_mode_leaf(),
            QbField::PkValue => self.qb_start_typing_leaf(),
            QbField::SkValue => self.qb_start_typing_leaf(),
            QbField::SkCondition => self.qb_next_sk_leaf(),
            QbField::Filter(i, sub) => if sub == 1 {
                self.qb_cycle_filter_leaf(i)
            } else {
                self.qb_start_typing_leaf()
            },
            QbField::AddFilter => self.qb_push_filter_leaf(),
        }
    }

    fn qb_add_key(self, has_sk: bool) -> (v: Self)
        requires
            self.query_filters@.len() * 3 + 7 <= usize::MAX,
        ensures
            v.same_data(self),
            v.state() == qb_add_step(self.state(), has_sk),
    {
        let n = self.query_filters.len();
        let base: usize = if has_sk { 4 } else { 2 };
        let mut v = self.qb_push_filter_leaf();
        v.query_builder_field = base + n * 3;
        v.query_builder_editing = true;
        v
    }

    fn qb_delete_key(self, has_sk: bool) -> (v: Self)
        requires
            self.query_filters@.len() * 3 + 7 <= usize::MAX,
        ensures
            v.same_data(self),
            v.state() == qb_delete_step(self.state(), has_sk),
    {
        let field = qb_field_at(self.query_builder_field, has_sk, self.query_filters.len());
        match field {
            QbField::Filter(i, _) => {
                let n = self.query_filters.len();
                let base: usize = if has_sk { 4 } else { 2 };
                let mut v = self;
                let fs = v.take_filters();
                v.query_filters = filters_removed(fs, i);
                let max = base + (n - 1) * 3;
                v.query_builder_field = if v.query_builder_field > max { max } else { v.query_builder_field };
                v
            },
            _ => self,
        }
    }

    fn qb_run_key(self) -> (v: Self)
        ensures
            v.tables == self.tables,
            v.table_detail == self.table_detail,
            v.all_pages@.len() == 0,
            v.state() == reload_items(DdbState { query_builder_open: false, ..self.state() }),
    {
        let mut v = self;
        v.query_builder_open = false;
        v.reload_leaf()
    }

    fn qb_move_key(self, key: &KeyEvent, has_sk: bool) -> (v: Self)
        requires
            self.query_filters@.len() * 3 + 7 <= usize::MAX,
        ensures
            v.same_data(self),
            v.state() == qb_move_step(self.state(), has_sk, *key),
    {
        let base: usize = if has_sk { 4 } else { 2 };
        let max = base + self.query_filters.len() * 3;
        let moved = field_after_move(self.query_builder_field, max, key);
        let down = key.down();
        let up = key.up();
        let tab = key.code == KeyCode::Tab;
        let closes = !down && !up && !tab && (key.code == KeyCode::Esc || key.char_is('q'));
        let mut v = self;
        v.query_builder_field = moved;
        v.query_mode = if !down && !up && tab { !v.query_mode } else { v.query_mode };
        v.query_builder_open = v.query_builder_open && !closes;
        v
    }

    fn qb_action_key(self, key: &KeyEvent, has_sk: bool) -> (res: (Self, Option<Action>))
        requires
            self.query_filters@.len() * 3 + 7 <= usize::MAX,
        ensures
            res.0.tables == self.tables,
            res.0.table_detail == self.table_detail,
            res.0.all_pages@.len() == 0 || res.0.all_pages == self.all_pages,
            (res.0.state(), res.1) == qb_action_step(self.state(), has_sk, *key),
    {
        if key.code == KeyCode::Enter || key.char_is('i') {
            (self.qb_activate_key(has_sk), Some(Action::NoOp))
        } else if key.char_is('a') {
            (self.qb_add_key(has_sk), Some(Action::NoOp))
        } else if key.char_is('d') {
            (self.qb_delete_key(has_sk), Some(Action::NoOp))
        } else {
            (self.qb_run_key(), Some(Action::DdbRunQuery))
        }
    }

    fn qb_key(self, key: &KeyEvent) -> (res: (Self, Option<Action>))
        requires
            self.query_filters@.len() * 3 + 7 <= usize::MAX,
        ensures
            res.0.tables == self.tables,
            res.0.table_detail == self.table_detail,
            res.0.all_pages@.len() == 0 || res.0.all_pages == self.all_pages,
            (res.0.state(), res.1) == qb_step(self.state(), self.ctx().has_sk, *key),
    {
        let has_sk = self.qb_has_sk();
        if self.query_builder_editing {
            (self.qb_edit_key(key, has_sk), Some(Action::NoOp))
        } else if key.code == KeyCode::Enter || key.char_is('i') || key.char_is('a') || key.char_is('d')
            || key.char_is('r') {
            self.qb_action_key(key, has_sk)
        } else {
            (self.qb_move_key(key, has_sk), Some(Action::NoOp))
        }
    }
}

fn row_after(sel: usize, pending_g: bool, count: usize, key: &KeyEvent) -> (r: usize)
    ensures
        r == moved_row(sel, pending_g, count, *key),
{
    if key.down() {
        move_down(sel, count)
    } else if key.up() {
        if sel > 0 {
            sel - 1
        } else {
            sel
        }
    } else if key.char_is('g') {
        if pending_g {
            0
        } else {
            sel
        }
    } else {
        move_last(sel, count)
    }
}

fn right_offset(offset: usize, cols: usize) -> (r: usize)
    ensures
        r == scrolled_right(offset, cols as nat),
{
    if cols > 1 {
        if cols >= 3 && offset < cols - 3 {
            offset + 1
        } else {
            cols - 2
        }
    } else {
        offset
    }
}

fn position_of(names: &Vec<String>, name: &str) -> (r: Option<usize>)
    ensures
        match index_position(texts(names@), name@) {
            Some(p) => r == Some(p as usize) && p < names@.len(),
            None => r is None,
        },
{
    let n = names.len();
    let mut i: usize = 0;
    proof {
        assert(texts(names@).skip(0) =~= texts(names@));
    }
    while i < n
        invariant
            n == names@.len(),
            0 <= i <= n,
            forall|t: int| 0 <= t < i ==> names@[t]@ != name@,
            index_position(texts(names@), name@) == (match index_position(texts(names@).skip(i as int), name@) {
                Some(p) => Some((p + i) as nat),
                None => None::<nat>,
            }),
        decreases n - i,
    {
        proof {
            assert(texts(names@).skip(i as int).drop_first() =~= texts(names@).skip(i + 1));
        }
        if str_eq(names[i].as_str(), name) {
            return Some(i);
        }
        i = i + 1;
    }
    None
}

impl DynamoDbView {
    // ---- the lists ----

    fn row_nav_key(self, key: &KeyEvent, rows: usize) -> (v: Self)
        ensures
            v.same_data(self),
            v.state() == row_nav_step(self.state(), rows as nat, *key),
    {
        let sel = row_after(self.selected, self.pending_g, rows, key);
        let pending = key.char_is('g') && !key.down() && !key.up() && !self.pending_g;
        let mut v = self;
        v.selected = sel;
        v.pending_g = pending;
        v
    }

    fn sort_count(&self) -> (r: usize)
        ensures
            r == sort_columns(self.state()),
    {
        match self.screen {
            DdbScreen::Items => self.visible_columns.len(),
            DdbScreen::Tables => 4,
            DdbScreen::Detail => 0,
        }
    }

    fn pending_off_leaf(self) -> (v: Self)
        ensures
            v.same_data(self),
            v.state() == (DdbState { pending_g: false, ..self.state() }),
    {
        let mut v = self;
        v.pending_g = false;
        v
    }

    fn sort_move_leaf(self, forward: bool, max: usize) -> (v: Self)
        requires
            max > 0,
            max == sort_columns(self.state()),
        ensures
            v.same_data(self),
            v.state() == sort_key_step(self.state(), forward),
    {
        let idx = next_sort(self.sort_col_idx, max, forward);
        let asc = if self.sort_col_idx.is_none() { true } else { self.sort_ascending };
        let off = sort_offset_of(idx, self.screen, self.col_offset, self.last_visible_scroll_cols);
        let mut v = self;
        v.pending_g = false;
        v.sort_col_idx = idx;
        v.sort_ascending = asc;
        v.selected = 0;
        v.col_offset = off;
        v
    }

    fn sort_key(self, forward: bool) -> (v: Self)
        ensures
            v.same_data(self),
            v.state() == sort_key_step(self.state(), forward),
    {
        let max = self.sort_count();
        if max == 0 {
            self.pending_off_leaf()
        } else {
            self.sort_move_leaf(forward, max)
        }
    }

    fn flip_sort_leaf(self) -> (v: Self)
        ensures
            v.same_data(self),
            v.state() == flip_sort_step(self.state()),
    {
        let sorted = self.sort_col_idx.is_some();
        let mut v = self;
        v.pending_g = false;
        v.sort_ascending = if sorted { !v.sort_ascending } else { v.sort_ascending };
        v.selected = if sorted { 0 } else { v.selected };
        v
    }

    fn clear_query_leaf(self) -> (v: Self)
        ensures
            v.tables == self.tables,
            v.table_detail == self.table_detail,
            v.all_pages@.len() == 0,
            v.state() == reload_items(
                DdbState {
                    pending_g: false,
                    query_mode: true,
                    query_pk_value: Seq::empty(),
                    query_sk_value: Seq::empty(),
                    query_summary: None,
                    ..self.state()
                },
            ),
    {
        let mut v = self;
        v.pending_g = false;
        v.query_mode = true;
        v.query_pk_value = String::new();
        v.query_sk_value = String::new();
        v.query_summary = None;
        v.reload_leaf()
    }

    fn clear_query_key(self) -> (res: (Self, Option<Action>))
        ensures
            res.0.tables == self.tables,
            res.0.table_detail == self.table_detail,
            res.0.all_pages@.len() == 0 || res.0.all_pages == self.all_pages,
            (res.0.state(), res.1) == clear_query_step(self.state()),
    {
        if self.screen == DdbScreen::Items && self.query_summary.is_some() {
            (self.clear_query_leaf(), Some(Action::DdbSwitchIndex))
        } else {
            (self.pending_off_leaf(), Some(Action::NoOp))
        }
    }

    fn sort_keys(self, key: &KeyEvent) -> (res: (Self, Option<Action>))
        ensures
            res.0.tables == self.tables,
            res.0.table_detail == self.table_detail,
            res.0.all_pages@.len() == 0 || res.0.all_pages == self.all_pages,
            (res.0.state(), res.1) == sort_step(self.state(), *key),
    {
        if key.char_is('s') {
            (self.sort_key(true), Some(Action::NoOp))
        } else if key.char_is('S') {
            (self.sort_key(false), Some(Action::NoOp))
        } else if key.char_is('x') {
            (self.flip_sort_leaf(), Some(Action::NoOp))
        } else {
            self.clear_query_key()
        }
    }

    fn right_leaf(self) -> (v: Self)
        ensures
            v.same_data(self),
            v.state() == (DdbState {
                col_offset: if self.screen == DdbScreen::Items {
                    scrolled_right(self.col_offset, self.visible_columns@.len())
                } else {
                    self.col_offset
                },
                ..self.state()
            }),
    {
        let off = if self.screen == DdbScreen::Items {
            right_offset(self.col_offset, self.visible_columns.len())
        } else {
            self.col_offset
        };
        let mut v = self;
        v.col_offset = off;
        v
    }

    fn left_leaf(self) -> (v: Self)
        ensures
            v.same_data(self),
            v.state() == (DdbState { col_offset: sat_sub_usize(self.col_offset, 1), ..self.state() }),
    {
        let mut v = self;
        v.col_offset = if v.col_offset > 0 { v.col_offset - 1 } else { 0 };
        v
    }

    fn back_key(self) -> (res: (Self, Option<Action>))
        ensures
            res.0.same_data(self),
            res.0.state() == back_step(self.state()).0,
            res.1 == (if back_step(self.state()).1 { Some(Action::ServiceBack) } else { None::<Action> }),
    {
        let mut v = self;
        let went = v.go_back();
        (v, if went { Some(Action::ServiceBack) } else { None })
    }

    fn width_leaf(self, key: &KeyEvent) -> (v: Self)
        ensures
            v.same_data(self),
            v.state() == (DdbState {
                col_width_override: if self.screen == DdbScreen::Items {
                    width_after(self.col_width_override, *key)
                } else {
                    self.col_width_override
                },
                ..self.state()
            }),
    {
        let w = if self.screen == DdbScreen::Items {
            width_key(self.col_width_override, key)
        } else {
            self.col_width_override
        };
        let mut v = self;
        v.col_width_override = w;
        v
    }

    fn column_keys(self, key: &KeyEvent) -> (res: (Self, Option<Action>))
        ensures
            res.0.same_data(self),
            (res.0.state(), res.1) == column_step(self.state(), *key),
    {
        if key.char_is('l') || key.code == KeyCode::Right {
            (self.right_leaf(), Some(Action::NoOp))
        } else if key.char_is('h') || key.code == KeyCode::Left {
            if self.screen == DdbScreen::Items {
                (self.left_leaf(), Some(Action::NoOp))
            } else {
                self.back_key()
            }
        } else {
            (self.width_leaf(key), Some(Action::NoOp))
        }
    }
}

impl DynamoDbView {
    fn loading_leaf(self) -> (v: Self)
        ensures
            v.same_data(self),
            v.state() == (DdbState { loading: true, ..self.state() }),
    {
        let mut v = self;
        v.loading = true;
        v
    }

    fn to_page_leaf(self, page: usize) -> (v: Self)
        ensures
            v.same_data(self),
            v.state() == to_page(self.state(), page),
    {
        let mut v = self;
        v.current_page = page;
        v.showing_page = true;
        v.selected = 0;
        v.col_offset = 0;
        v.items_offset = 0;
        v
    }

    fn next_page_key(self, key: &KeyEvent) -> (res: (Self, Option<Action>))
        requires
            self.wf(),
            is_char(*key, 'n'),
        ensures
            res.0.same_data(self),
            (res.0.state(), res.1) == page_step(self.state(), self.ctx(), *key),
    {
        if self.screen == DdbScreen::Items && self.has_next_page() {
            if self.needs_fetch_next_page() {
                (self.loading_leaf(), Some(Action::DdbNextPage))
            } else {
                let n = self.all_pages.len();
                proof {
                    assert(self.current_page < n);
                }
                let p = self.current_page + 1;
                (self.to_page_leaf(p), Some(Action::NoOp))
            }
        } else {
            (self, Some(Action::NoOp))
        }
    }

    fn prev_page_key(self, key: &KeyEvent) -> (res: (Self, Option<Action>))
        requires
            is_char(*key, 'N'),
        ensures
            res.0.same_data(self),
            (res.0.state(), res.1) == page_step(self.state(), self.ctx(), *key),
    {
        if self.screen == DdbScreen::Items && self.current_page > 0 {
            let p = self.current_page - 1;
            (self.to_page_leaf(p), Some(Action::NoOp))
        } else {
            (self, Some(Action::NoOp))
        }
    }

    fn retry_leaf(self) -> (v: Self)
        ensures
            v.same_data(self),
            v.state() == (DdbState { loading: true, error: None, ..self.state() }),
    {
        let mut v = self;
        v.loading = true;
        v.error = None;
        v
    }

    fn retry_key(self, key: &KeyEvent) -> (res: (Self, Option<Action>))
        requires
            is_char(*key, 'r'),
        ensures
            res.0.same_data(self),
            (res.0.state(), res.1) == page_step(self.state(), self.ctx(), *key),
    {
        if self.error.is_some() {
            (self.retry_leaf(), Some(Action::ServiceBack))
        } else {
            (self, Some(Action::NoOp))
        }
    }

    fn open_picker_leaf(self, names: &Vec<String>) -> (v: Self)
        requires
            texts(names@) == self.ctx().index_names,
        ensures
            v.same_data(self),
            v.state() == (DdbState {
                index_picker_open: true,
                index_picker_selected: match self.state().active_index {
                    None => 0,
                    Some(n) => match index_position(self.ctx().index_names, n) {
                        Some(p) => (p + 1) as usize,
                        None => 0,
                    },
                },
                ..self.state()
            }),
    {
        let _count = names.len();
        let sel = match &self.active_index {
            None => 0,
            Some(n) => match position_of(names, n.as_str()) {
                Some(p) => p + 1,
                None => 0,
            },
        };
        let mut v = self;
        v.index_picker_open = true;
        v.index_picker_selected = sel;
        v
    }

    fn picker_open_key(self, key: &KeyEvent) -> (res: (Self, Option<Action>))
        requires
            is_char(*key, 'i'),
        ensures
            res.0.same_data(self),
            (res.0.state(), res.1) == page_step(self.state(), self.ctx(), *key),
    {
        if self.screen == DdbScreen::Items && self.table_detail.is_some() {
            let names = self.index_name_list();
            (self.open_picker_leaf(&names), Some(Action::NoOp))
        } else {
            (self, Some(Action::NoOp))
        }
    }

    fn open_builder_leaf(self) -> (v: Self)
        ensures
            v.same_data(self),
            v.state() == (DdbState {
                query_builder_open: true,
                query_builder_field: 0,
                query_builder_editing: false,
                ..self.state()
            }),
    {
        let mut v = self;
        v.query_builder_open = true;
        v.query_builder_field = 0;
        v.query_builder_editing = false;
        v
    }

    fn builder_open_key(self, key: &KeyEvent) -> (res: (Self, Option<Action>))
        requires
            is_char(*key, 'q'),
        ensures
            res.0.same_data(self),
            (res.0.state(), res.1) == page_step(self.state(), self.ctx(), *key),
    {
        if self.screen == DdbScreen::Items && self.table_detail.is_some() {
            (self.open_builder_leaf(), Some(Action::NoOp))
        } else {
            (self, Some(Action::NoOp))
        }
    }

    fn page_keys(self, key: &KeyEvent) -> (res: (Self, Option<Action>))
        requires
            self.wf(),
            is_page_key(*key),
        ensures
            res.0.same_data(self),
            (res.0.state(), res.1) == page_step(self.state(), self.ctx(), *key),
    {
        if key.char_is('n') {
            self.next_page_key(key)
        } else if key.char_is('N') {
            self.prev_page_key(key)
        } else if key.char_is('r') {
            self.retry_key(key)
        } else if key.char_is('i') {
            self.picker_open_key(key)
        } else {
            self.builder_open_key(key)
        }
    }

    fn filter_start_leaf(self) -> (v: Self)
        ensures
            v.same_data(self),
            v.state() == (DdbState { filtering: true, filter: Seq::empty(), ..self.state() }),
    {
        let mut v = self;
        v.filtering = true;
        v.filter = String::new();
        v
    }

    fn rest_keys(self, key: &KeyEvent) -> (res: (Self, Option<Action>))
        ensures
            res.0.same_data(self),
            (res.0.state(), res.1) == rest_step(self.state(), *key),
    {
        if key.char_is('/') {
            (self.filter_start_leaf(), Some(Action::NoOp))
        } else if key.code == KeyCode::Enter {
            (self, Some(Action::ServiceEnter))
        } else if key.code == KeyCode::Esc {
            self.back_key()
        } else {
            (self.pending_off_leaf(), Some(Action::NoOp))
        }
    }

    fn list_keys(self, key: &KeyEvent) -> (res: (Self, Option<Action>))
        requires
            self.wf(),
        ensures
            res.0.tables == self.tables,
            res.0.table_detail == self.table_detail,
            res.0.all_pages@.len() == 0 || res.0.all_pages == self.all_pages,
            (res.0.state(), res.1) == list_step(self.state(), self.ctx(), *key),
    {
        if key.down() || key.up() || key.char_is('g') || key.char_is('G') {
            let rows = self.item_count();
            (self.row_nav_key(key, rows), Some(Action::NoOp))
        } else if key.char_is('s') || key.char_is('S') || key.char_is('x') || key.char_is('X') {
            self.sort_keys(key)
        } else if key.char_is('l') || key.code == KeyCode::Right || key.char_is('h') || key.code == KeyCode::Left
            || key.char_is('+') || key.char_is('=') || key.char_is('-') || key.char_is('0') {
            self.column_keys(key)
        } else if key.char_is('n') || key.char_is('N') || key.char_is('r') || key.char_is('i') || key.char_is('q') {
            self.page_keys(key)
        } else {
            self.rest_keys(key)
        }
    }

    /// What a key does to the screens (see `key_step`), the new state with
    /// the action left for the application.
    pub fn step_key(self, key: &KeyEvent) -> (res: (Self, Option<Action>))
        requires
            self.wf(),
            self.query_filters@.len() * 3 + 7 <= usize::MAX,
        ensures
            res.0.tables == self.tables,
            res.0.table_detail == self.table_detail,
            res.0.all_pages@.len() == 0 || res.0.all_pages == self.all_pages,
            (res.0.state(), res.1) == key_step(self.state(), self.ctx(), *key),
    {
        if self.screen == DdbScreen::Detail {
            (self.detail_key(key), Some(Action::NoOp))
        } else if self.filtering {
            (self.filter_key(key), Some(Action::NoOp))
        } else if self.index_picker_open {
            self.picker_key(key)
        } else if self.query_builder_open {
            self.qb_key(key)
        } else {
            self.list_keys(key)
        }
    }

    /// Handles a key (see `key_step`); the action is what is left for the
    /// application to do.
    pub fn handle_key(&mut self, key: KeyEvent) -> (r: Option<Action>)
        requires
            old(self).wf(),
            old(self).query_filters@.len() * 3 + 7 <= usize::MAX,
        ensures
            key_handled(*old(self), key, *final(self), r),
    {
        let mut current = DynamoDbView::default();
        std::mem::swap(&mut current, self);
        let (next, r) = current.step_key(&key);
        *self = next;
        r
    }
}

// ---------------------------------------------------------------------------
// Running a query or a scan from the query builder.
// ---------------------------------------------------------------------------

/// A query on the partition key (and, when given, on the sort key:
/// name, condition, value), in ascending sort key order or not.
#[derive(Debug)]
pub struct QueryKeys {
    pub pk_name: String,
    pub pk_value: String,
    pub sk: Option<(String, String, String)>,
    pub forward: bool,
}

/// A request for the first page of items: a query when `query` is given,
/// else a scan, with the query builder filters; and the summary to show
/// once it succeeds.
#[derive(Debug)]
pub struct ItemsRequest {
    pub query: Option<QueryKeys>,
    pub filters: Vec<(String, String, String)>,
    pub summary: Option<String>,
}

/// The texts of three strings.
pub open spec fn triple_view(t: (String, String, String)) -> (Seq<char>, Seq<char>, Seq<char>) {
    (t.0@, t.1@, t.2@)
}

/// How a filter reads in a summary: `attribute condition "value"`.
pub open spec fn filter_summary(f: (Seq<char>, Seq<char>, Seq<char>)) -> Seq<char> {
    f.0 + " "@ + f.1 + " \""@ + f.2 + "\""@
}

/// The filters of a summary, each after ` | `.
pub open spec fn filters_suffix(fs: Seq<(Seq<char>, Seq<char>, Seq<char>)>) -> Seq<char>
    decreases fs.len(),
{
    if fs.len() == 0 {
        Seq::empty()
    } else {
        filters_suffix(fs.drop_last()) + " | "@ + filter_summary(fs.last())
    }
}

/// The summary of a query: `pk = "value"`, then the sort key condition
/// and the filters, each after ` | `.
pub open spec fn query_summary_text(
    pk: Seq<char>,
    pk_value: Seq<char>,
    sk: Option<(Seq<char>, Seq<char>, Seq<char>)>,
    fs: Seq<(Seq<char>, Seq<char>, Seq<char>)>,
) -> Seq<char> {
    pk + " = \""@ + pk_value + "\""@ + match sk {
        Some(k) => " | "@ + filter_summary(k),
        None => Seq::empty(),
    } + filters_suffix(fs)
}

/// The summary of a scan: its filters joined by ` | `, none without
/// filters.
pub open spec fn scan_summary_text(fs: Seq<(Seq<char>, Seq<char>, Seq<char>)>) -> Option<Seq<char>> {
    if fs.len() == 0 {
        None
    } else {
        Some(filters_suffix(fs).skip(3))
    }
}

/// The key names of a query: those of the active index when the table
/// description has it, else those of the table.
pub open spec fn query_key_names(d: TableDetail, active_index: Option<Seq<char>>) -> (Seq<char>, Option<Seq<char>>) {
    let idx = match active_index {
        Some(n) => index_named(d.indexes@, n),
        None => None,
    };
    match idx {
        Some(i) => (i.partition_key@, opt_text(i.sort_key)),
        None => (d.partition_key@, opt_text(d.sort_key)),
    }
}

fn push_filter_summary(s: &mut String, f: &(String, String, String))
    ensures
        final(s)@ == old(s)@ + filter_summary((f.0@, f.1@, f.2@)),
{
    push_str(s, f.0.as_str());
    push_str(s, " ");
    push_str(s, f.1.as_str());
    push_str(s, " \"");
    push_str(s, f.2.as_str());
    push_str(s, "\"");
}

fn push_filters_suffix(s: &mut String, fs: &Vec<(String, String, String)>)
    ensures
        final(s)@ == old(s)@ + filters_suffix(fs@.map_values(|t: (String, String, String)| (t.0@, t.1@, t.2@))),
{
    let ghost views = fs@.map_values(|t: (String, String, String)| (t.0@, t.1@, t.2@));
    let n = fs.len();
    let mut i: usize = 0;
    while i < n
        invariant
            n == fs@.len(),
            views == fs@.map_values(|t: (String, String, String)| (t.0@, t.1@, t.2@)),
            0 <= i <= n,
            s@ == old(s)@ + filters_suffix(views.take(i as int)),
        decreases n - i,
    {
        push_str(s, " | ");
        push_filter_summary(s, &fs[i]);
        proof {
            assert(views.take(i + 1).drop_last() =~= views.take(i as int));
            assert(views.take(i + 1).last() == views[i as int]);
        }
        i = i + 1;
    }
    proof {
        assert(views.take(n as int) =~= views);
    }
}

impl DynamoDbView {
    /// The request for the first page of items after `r` in the query
    /// builder: a query when in query mode with a partition key value
    /// (none at all without a table description), else a scan; the query
    /// has a sort key condition when the key schema has a sort key and a
    /// sort key value is given.
    pub fn run_query_request(&self) -> (r: Option<ItemsRequest>)
        ensures
            ({
                let fs = complete_filters(filter_views(self.query_filters@));
                if self.query_mode && self.query_pk_value@.len() > 0 {
                    match self.table_detail {
                        None => r is None,
                        Some(d) => {
                            let (pk, sk) = query_key_names(d, opt_text(self.active_index));
                            let sk_query = match sk {
                                Some(n) => if self.query_sk_value@.len() > 0 {
                                    Some((n, self.query_sk_condition@, self.query_sk_value@))
                                } else {
                                    None
                                },
                                None => None,
                            };
                            &&& r is Some
                            &&& r->0.query is Some
                            &&& r->0.query->0.pk_name@ == pk
                            &&& r->0.query->0.pk_value@ == self.query_pk_value@
                            &&& r->0.query->0.forward == !self.query_descending
                            &&& match sk_query {
                                Some(k) => r->0.query->0.sk is Some && triple_view(r->0.query->0.sk->0) == k,
                                None => r->0.query->0.sk is None,
                            }
                            &&& r->0.filters@.map_values(|t: (String, String, String)| (t.0@, t.1@, t.2@)) == fs
                            &&& opt_text(r->0.summary) == Some(query_summary_text(pk, self.query_pk_value@, sk_query, fs))
                        },
                    }
                } else {
                    &&& r is Some
                    &&& r->0.query is None
                    &&& r->0.filters@.map_values(|t: (String, String, String)| (t.0@, t.1@, t.2@)) == fs
                    &&& opt_text(r->0.summary) == scan_summary_text(fs)
                }
            }),
    {
        let filters = self.filter_tuples();
        let ghost fs = complete_filters(filter_views(self.query_filters@));
        if self.query_mode && !self.query_pk_value.as_str().is_empty() {
            let d = match &self.table_detail {
                Some(d) => d,
                None => return None,
            };
            let idx = match &self.active_index {
                Some(n) => find_index(&d.indexes, n.as_str()),
                None => None,
            };
            let (pk, sk) = match idx {
                Some(i) => (copy_string(&i.partition_key), copy_opt_string(&i.sort_key)),
                None => (copy_string(&d.partition_key), copy_opt_string(&d.sort_key)),
            };
            let sk_query = match sk {
                Some(n) => if !self.query_sk_value.as_str().is_empty() {
                    Some((n, copy_string(&self.query_sk_condition), copy_string(&self.query_sk_value)))
                } else {
                    None
                },
                None => None,
            };
            let mut summary = copy_string(&pk);
            push_str(&mut summary, " = \"");
            push_str(&mut summary, self.query_pk_value.as_str());
            push_str(&mut summary, "\"");
            match &sk_query {
                Some(k) => {
                    push_str(&mut summary, " | ");
                    push_filter_summary(&mut summary, k);
                },
                None => {},
            }
            push_filters_suffix(&mut summary, &filters);
            let keys = QueryKeys {
                pk_name: pk,
                pk_value: copy_string(&self.query_pk_value),
                sk: sk_query,
                forward: !self.query_descending,
            };
            Some(ItemsRequest { query: Some(keys), filters, summary: Some(summary) })
        } else {
            let summary = if filters.len() == 0 {
                None
            } else {
                let mut s = String::new();
                push_filters_suffix(&mut s, &filters);
                let chars = chars_of(s.as_str());
                proof {
                    reveal_strlit(" | ");
                    let views = filters@.map_values(|t: (String, String, String)| (t.0@, t.1@, t.2@));
                    assert(views.len() > 0);
                    assert(filters_suffix(views).len() >= 3);
                    assert(chars@.len() >= 3);
                }
                let rest = crate::text::string_from_chars(&crate::text::sub_chars(&chars, 3, chars.len()));
                proof {
                    assert(rest@ =~= s@.skip(3));
                }
                Some(rest)
            };
            Some(ItemsRequest { query: None, filters, summary })
        }
    }

    /// Shows the first page of a query or scan with its summary.
    pub fn set_query_items(&mut self, result: ScanResult, summary: Option<String>)
        ensures
            final(self).tables == old(self).tables,
            final(self).table_detail == old(self).table_detail,
            final(self).all_pages@ == seq![result],
            final(self).state() == (DdbState {
                visible_columns: ordered_columns(
                    old(self).table_detail,
                    opt_text(old(self).active_index),
                    texts(result.columns@),
                ),
                showing_page: true,
                page_count: 1,
                current_page: 0,
                loading: false,
                error: None,
                selected: 0,
                col_offset: 0,
                items_offset: 0,
                query_summary: opt_text(summary),
                ..old(self).state()
            }),
            old(self).wf() ==> final(self).wf(),
    {
        self.set_items(result);
        self.query_summary = summary;
    }
}

// ---------------------------------------------------------------------------
// The column layout of the items screen.
// ---------------------------------------------------------------------------

/// Where the scrolling columns of the items screen start and end (the
/// first column always shows, 14 wide, taking 17 with its borders), how
/// wide each is, how much the last one gets besides, and the width left
/// after the first column.
#[derive(Debug, Clone, Copy, PartialEq, Eq, Structural)]
pub struct ColumnLayout {
    pub scroll_start: usize,
    pub scroll_end: usize,
    pub col_width: usize,
    pub last_col_extra: usize,
    pub remaining: usize,
}

/// The layout of `cols` columns on a screen `width` wide, scrolled by
/// `offset`, with the width asked for (0 fits as many as there is room for,
/// at least 10 each): as many columns as fit from the offset (at least
/// one), sharing the room (each at least 8), the last taking what is left.
pub open spec fn layout_of(width: usize, cols: usize, offset: usize, asked: usize) -> ColumnLayout {
    let remaining = sat_sub_usize(width, 17);
    let scroll_start: usize = if 1 + offset < cols { (1 + offset) as usize } else { cols };
    let visible = visible_of(sat_sub_usize(cols, 1), offset, remaining, asked);
    let scroll_end: usize = if scroll_start + visible < cols { (scroll_start + visible) as usize } else { cols };
    let n: usize = if scroll_start < cols { (scroll_end - scroll_start) as usize } else { 0 };
    let col_width = share_of(remaining, n);
    ColumnLayout {
        scroll_start,
        scroll_end,
        col_width,
        last_col_extra: sat_sub_usize(remaining, n * col_width + n),
        remaining,
    }
}

/// How many of `scrollable` columns show from `offset` (see `layout_of`).
pub open spec fn visible_of(scrollable: usize, offset: usize, remaining: usize, asked: usize) -> usize {
    if scrollable == 0 {
        0
    } else {
        let available = sat_sub_usize(scrollable, offset as int);
        if asked > 0 {
            let cw = if asked < 8 { 8 } else { asked };
            let fits = remaining / (cw + 1) as usize;
            let fits1: usize = if fits < 1 { 1 } else { fits };
            if fits1 < available { fits1 } else { available }
        } else {
            let auto: usize = if available < remaining / 10 { available } else { (remaining / 10) as usize };
            if auto < 1 { 1 } else { auto }
        }
    }
}

/// The width of each of `n` columns sharing `remaining` (with a separator
/// each), at least 8.
pub open spec fn share_of(remaining: usize, n: usize) -> usize {
    let share: int = if n == 0 { remaining as int } else { (sat_sub_usize(remaining, n as int) as int) / (n as int) };
    if share < 8 { 8 } else { share as usize }
}

fn visible_cols(scrollable: usize, offset: usize, remaining: usize, asked: usize) -> (r: usize)
    requires
        asked < usize::MAX,
    ensures
        r == visible_of(scrollable, offset, remaining, asked),
{
    if scrollable == 0 {
        0
    } else {
        let available = if scrollable >= offset { scrollable - offset } else { 0 };
        if asked > 0 {
            let cw = if asked < 8 { 8 } else { asked };
            let fits = remaining / (cw + 1);
            let fits1 = if fits < 1 { 1 } else { fits };
            if fits1 < available { fits1 } else { available }
        } else {
            let auto = if available < remaining / 10 { available } else { remaining / 10 };
            if auto < 1 { 1 } else { auto }
        }
    }
}

fn share_width(remaining: usize, n: usize) -> (r: usize)
    ensures
        r == share_of(remaining, n),
{
    let share = if n == 0 { remaining } else { (if remaining >= n { remaining - n } else { 0 }) / n };
    if share < 8 { 8 } else { share }
}

/// The columns laid out take no more than the width left, or than nine
/// times the number of columns.
proof fn lemma_used_fits(n: int, cw: int, remaining: int, cols: int)
    requires
        0 <= n <= cols,
        0 <= remaining,
        n == 0 || cw == 8 || cw == (if remaining >= n { remaining - n } else { 0 }) / n,
    ensures
        n * cw + n <= remaining || n * cw + n <= 9 * cols,
{
    if n > 0 {
        if cw == 8 {
            assert(n * cw + n <= 9 * cols) by (nonlinear_arith)
                requires
                    cw == 8,
                    0 <= n <= cols,
            ;
        } else {
            let r = if remaining >= n { remaining - n } else { 0 };
            assert(n * cw <= r) by (nonlinear_arith)
                requires
                    n > 0,
                    r >= 0,
                    cw == r / n,
            ;
            if remaining < n {
                assert(n * cw + n <= 9 * cols) by (nonlinear_arith)
                    requires
                        n * cw <= 0,
                        0 < n <= cols,
                ;
            }
        }
    }
}

/// Lays out the columns of the items screen (see `layout_of`).
pub fn column_layout(width: usize, cols: usize, offset: usize, asked: usize) -> (r: ColumnLayout)
    requires
        offset < usize::MAX,
        asked < usize::MAX,
        cols * 9 + 9 <= usize::MAX,
    ensures
        r == layout_of(width, cols, offset, asked),
{
    let remaining = if width >= 17 { width - 17 } else { 0 };
    let scroll_start = if 1 + offset < cols { 1 + offset } else { cols };
    let scrollable = if cols >= 1 { cols - 1 } else { 0 };
    let visible = visible_cols(scrollable, offset, remaining, asked);
    proof {
        assert(visible <= scrollable || visible == 1);
    }
    let scroll_end = if scroll_start + visible < cols { scroll_start + visible } else { cols };
    let n = if scroll_start < cols { scroll_end - scroll_start } else { 0 };
    let col_width = share_width(remaining, n);
    proof {
        lemma_used_fits(n as int, col_width as int, remaining as int, cols as int);
    }
    let used = n * col_width + n;
    let last_col_extra = if remaining >= used { remaining - used } else { 0 };
    ColumnLayout { scroll_start, scroll_end, col_width, last_col_extra, remaining }
}

} // verus!
