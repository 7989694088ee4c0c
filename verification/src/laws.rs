//! Properties of the library that relate several operations or hold of
//! every state.
use vstd::prelude::*;
use crate::app::{update_step, Action, AppState, Screen};
use crate::input::{KeyCode, KeyEvent};
use crate::keys::Focus;
use crate::nav::{half_page_down, jump_last, sat_sub_usize, step_down, step_up};
use crate::ui::services::{flip, SortDir};
use crate::order::{arranged, lemma_arranged_permutes, lemma_positions_where, lemma_positions_where_exact, positions_where, stable_order, EntryVal};

verus! {

/// Reversing the sort direction twice gives the direction back.
pub proof fn law_flip_twice(d: SortDir)
    ensures
        flip(flip(d)) == d,
{
}

/// `S` undoes `s` on the Lambda function list, and `s` undoes `S`.
pub proof fn law_lambda_sort_columns_inverse(c: crate::ui::services::lambda::SortColumn)
    ensures
        crate::ui::services::lambda::prev_column(crate::ui::services::lambda::next_column(c)) == c,
        crate::ui::services::lambda::next_column(crate::ui::services::lambda::prev_column(c)) == c,
{
}

/// `S` undoes `s` on the secret list, and `s` undoes `S`.
pub proof fn law_secrets_sort_columns_inverse(c: crate::ui::services::secrets::SortColumn)
    ensures
        crate::ui::services::secrets::prev_column(crate::ui::services::secrets::next_column(c)) == c,
        crate::ui::services::secrets::next_column(crate::ui::services::secrets::prev_column(c)) == c,
{
}

/// `S` undoes `s` on the object list, and `s` undoes `S`; on the bucket
/// list the same holds of its two columns, name and date.
pub proof fn law_s3_sort_columns_inverse(c: crate::ui::services::s3::SortColumn)
    ensures
        crate::ui::services::s3::prev_column(
            crate::ui::services::s3::S3Screen::Objects,
            crate::ui::services::s3::next_column(crate::ui::services::s3::S3Screen::Objects, c),
        ) == c,
        crate::ui::services::s3::next_column(
            crate::ui::services::s3::S3Screen::Objects,
            crate::ui::services::s3::prev_column(crate::ui::services::s3::S3Screen::Objects, c),
        ) == c,
        c != crate::ui::services::s3::SortColumn::Size ==> crate::ui::services::s3::prev_column(
            crate::ui::services::s3::S3Screen::Buckets,
            crate::ui::services::s3::next_column(crate::ui::services::s3::S3Screen::Buckets, c),
        ) == c,
{
}

/// `S` undoes `s` on the log group and stream lists, and `s` undoes `S`.
pub proof fn law_cloudwatch_sort_columns_inverse(
    g: crate::ui::services::cloudwatch::GroupSortCol,
    s: crate::ui::services::cloudwatch::StreamSortCol,
)
    ensures
        crate::ui::services::cloudwatch::prev_group_col(crate::ui::services::cloudwatch::next_group_col(g)) == g,
        crate::ui::services::cloudwatch::next_group_col(crate::ui::services::cloudwatch::prev_group_col(g)) == g,
        crate::ui::services::cloudwatch::prev_stream_col(crate::ui::services::cloudwatch::next_stream_col(s)) == s,
        crate::ui::services::cloudwatch::next_stream_col(crate::ui::services::cloudwatch::prev_stream_col(s)) == s,
{
}

/// On the DynamoDB lists, `S` undoes `s`: the sorted column goes back to
/// where it was (none, or one of the `max` columns).
pub proof fn law_dynamodb_sort_columns_inverse(c: Option<usize>, max: nat)
    requires
        0 < max <= usize::MAX,
        match c {
            Some(i) => i < max,
            None => true,
        },
    ensures
        crate::ui::services::dynamodb::next_sort_col(
            crate::ui::services::dynamodb::next_sort_col(c, max, true),
            max,
            false,
        ) == c,
{
}

/// A cursor on one of `count` rows stays on one of them whatever it is
/// moved by: a row down or up, to the last row, or 20 rows down or up.
pub proof fn law_cursor_stays_on_rows(sel: usize, count: usize)
    requires
        sel < count,
    ensures
        step_down(sel, count) < count,
        step_up(sel) < count,
        jump_last(sel, count) < count,
        half_page_down(sel, count) < count,
        sat_sub_usize(sel, 20) < count,
{
}

/// On the DynamoDB lists the cursor keys keep the cursor on a row.
pub proof fn law_dynamodb_cursor_stays_on_rows(sel: usize, pending_g: bool, count: usize, k: KeyEvent)
    requires
        sel < count,
    ensures
        crate::ui::services::dynamodb::moved_row(sel, pending_g, count, k) < count,
{
}

/// Esc while a Lambda filter is typed drops the filter and changes nothing
/// else: the screen, the cursor and the rows stay.
pub proof fn law_lambda_escape_filter(m: crate::ui::services::lambda::LambdaState, count: usize, k: KeyEvent)
    requires
        m.filtering,
        m.screen == crate::ui::services::lambda::LambdaScreen::Functions,
        k.code == KeyCode::Esc,
    ensures
        crate::ui::services::lambda::key_step(m, count, k).0 == (crate::ui::services::lambda::LambdaState {
            filtering: false,
            filter: Seq::empty(),
            ..m
        }),
{
}

/// On the DynamoDB screens, going back from an item shows the items again
/// and drops the item's JSON.
pub proof fn law_dynamodb_back_from_item(m: crate::ui::services::dynamodb::DdbState)
    requires
        m.screen == crate::ui::services::dynamodb::DdbScreen::Detail,
        !m.filtering,
    ensures
        crate::ui::services::dynamodb::back_step(m).0.screen == crate::ui::services::dynamodb::DdbScreen::Items,
        crate::ui::services::dynamodb::back_step(m).0.detail_json is None,
        crate::ui::services::dynamodb::back_step(m).1,
{
}

/// In the query builder, `d` right after `a` removes the filter `a` added:
/// the filters are as they were.
pub proof fn law_dynamodb_add_then_delete_filter(m: crate::ui::services::dynamodb::DdbState, has_sk: bool)
    requires
        crate::ui::services::dynamodb::qb_base(has_sk) + (m.query_filters.len() + 1) * 3 <= usize::MAX,
    ensures
        crate::ui::services::dynamodb::qb_delete_step(
            crate::ui::services::dynamodb::qb_add_step(m, has_sk),
            has_sk,
        ).query_filters == m.query_filters,
{
    let m1 = crate::ui::services::dynamodb::qb_add_step(m, has_sk);
    let n = m.query_filters.len();
    let base = crate::ui::services::dynamodb::qb_base(has_sk);
    assert(m1.query_builder_field == base + n * 3);
    assert((m1.query_builder_field - base) / 3 == n) by (nonlinear_arith)
        requires
            m1.query_builder_field == base + n * 3,
    ;
    assert((m1.query_builder_field - base) % 3 == 0) by (nonlinear_arith)
        requires
            m1.query_builder_field == base + n * 3,
    ;
    assert(m1.query_filters.remove(n as int) =~= m.query_filters);
}

/// On the DynamoDB items, `N` right after moving to the next loaded page
/// comes back to the page it left.
pub proof fn law_dynamodb_next_then_prev_page(
    m: crate::ui::services::dynamodb::DdbState,
    c: crate::ui::services::dynamodb::DdbCtx,
    k: KeyEvent,
)
    requires
        m.screen == crate::ui::services::dynamodb::DdbScreen::Items,
        m.current_page < usize::MAX,
        crate::input::is_char(k, 'N'),
    ensures
        crate::ui::services::dynamodb::page_step(
            crate::ui::services::dynamodb::to_page(m, (m.current_page + 1) as usize),
            c,
            k,
        ).0.current_page == m.current_page,
{
}

/// After a scroll the CloudWatch events ask for no page while one is
/// loading.
pub proof fn law_cloudwatch_no_load_while_loading(m: crate::ui::services::cloudwatch::CwState, count: usize)
    requires
        m.loading,
    ensures
        crate::ui::services::cloudwatch::auto_load(m, count) == (m, Some(Action::NoOp)),
{
}

/// Marking a log group that is not marked and then unmarking it leaves the
/// marks as they were.
pub proof fn law_cloudwatch_mark_twice(s: Seq<Seq<char>>, name: Seq<char>)
    requires
        !s.contains(name),
    ensures
        crate::ui::services::cloudwatch::toggled(crate::ui::services::cloudwatch::toggled(s, name), name) == s,
{
    assert(s.push(name).contains(name)) by {
        assert(s.push(name)[s.len() as int] == name);
    }
    lemma_without_absent(s, name);
    assert(s.push(name).drop_last() =~= s);
}

/// Dropping a name that is not there leaves the names as they are.
proof fn lemma_without_absent(s: Seq<Seq<char>>, name: Seq<char>)
    requires
        !s.contains(name),
    ensures
        crate::ui::services::cloudwatch::without(s, name) == s,
    decreases s.len(),
{
    if s.len() > 0 {
        assert(!s.drop_last().contains(name)) by {
            if s.drop_last().contains(name) {
                let i = choose|i: int| 0 <= i < s.drop_last().len() && s.drop_last()[i] == name;
                assert(s[i] == name);
            }
        }
        assert(s.last() != name) by {
            assert(s[s.len() - 1] == s.last());
        }
        lemma_without_absent(s.drop_last(), name);
        assert(s.drop_last().push(s.last()) =~= s);
    }
}

/// Columns that are each shown once stay each shown once when a page adds
/// its columns.
pub proof fn law_dynamodb_columns_stay_unique(cols: Seq<Seq<char>>, more: Seq<Seq<char>>)
    requires
        cols.no_duplicates(),
    ensures
        crate::ui::services::dynamodb::append_missing(cols, more).no_duplicates(),
        forall|c: Seq<char>| #[trigger] cols.contains(c) ==> crate::ui::services::dynamodb::append_missing(cols, more).contains(c),
    decreases more.len(),
{
    if more.len() > 0 {
        law_dynamodb_columns_stay_unique(cols, more.drop_last());
        let front = crate::ui::services::dynamodb::append_missing(cols, more.drop_last());
        if !front.contains(more.last()) {
            assert forall|c: Seq<char>| #[trigger] front.contains(c) implies front.push(more.last()).contains(c) by {
                let i = choose|i: int| 0 <= i < front.len() && front[i] == c;
                assert(front.push(more.last())[i] == c);
            }
        }
    }
}

/// Toggling the help twice leaves it as it was; so does toggling the focus
/// twice.
pub proof fn law_app_toggles_twice(m: AppState, profiles: Seq<Seq<char>>, pick: Option<crate::keys::Service>)
    ensures
        update_step(update_step(m, Action::ToggleHelp, profiles, pick), Action::ToggleHelp, profiles, pick).show_help
            == m.show_help,
        update_step(update_step(m, Action::ToggleFocus, profiles, pick), Action::ToggleFocus, profiles, pick).focus
            == m.focus,
{
}

/// Picking a listed profile on the profile picker opens the main screen
/// with that profile.
pub proof fn law_app_profile_pick(m: AppState, profiles: Seq<Seq<char>>, pick: Option<crate::keys::Service>)
    requires
        m.profile_selected < profiles.len(),
    ensures
        update_step(m, Action::ProfileSelect, profiles, pick).screen == Screen::Main,
        update_step(m, Action::ProfileSelect, profiles, pick).profile == profiles[m.profile_selected as int],
{
}

/// Hiding the sidebar gives the focus to the view.
pub proof fn law_app_hidden_sidebar_has_no_focus(m: AppState, profiles: Seq<Seq<char>>, pick: Option<crate::keys::Service>)
    requires
        m.show_sidebar,
    ensures
        update_step(m, Action::ToggleSidebar, profiles, pick).focus == Focus::Main,
        !update_step(m, Action::ToggleSidebar, profiles, pick).show_sidebar,
{
}


/// Sorting the rows that pass a filter lists each of them once, and no
/// other row.
proof fn lemma_shown_rows(n: nat, keep: spec_fn(int) -> bool, e: Seq<EntryVal>, desc: bool)
    requires
        n <= usize::MAX,
        e.len() == positions_where(n, keep).len(),
    ensures
        forall|i: int|
            #![trigger keep(i)]
            0 <= i < n ==> (arranged(positions_where(n, keep), stable_order(e, desc)).contains(i as usize) <==> keep(i)),
        forall|x: usize| arranged(positions_where(n, keep), stable_order(e, desc)).contains(x) ==> x < n,
        forall|p: int, q: int|
            0 <= p < q < arranged(positions_where(n, keep), stable_order(e, desc)).len() ==> #[trigger] arranged(
                positions_where(n, keep),
                stable_order(e, desc),
            )[p] != #[trigger] arranged(positions_where(n, keep), stable_order(e, desc))[q],
{
    let pos = positions_where(n, keep);
    lemma_positions_where(n, keep);
    lemma_positions_where_exact(n, keep);
    lemma_arranged_permutes(pos, e, desc);
    assert forall|x: usize| arranged(pos, stable_order(e, desc)).contains(x) implies x < n by {
        assert(pos.contains(x));
        let t = choose|t: int| 0 <= t < pos.len() && pos[t] == x;
    }
}

/// The Lambda list shows each function that passes the filter once, and no
/// other, whatever column and direction it is sorted by.
pub proof fn law_lambda_list_shows_matching_rows(v: crate::ui::services::lambda::LambdaView)
    requires
        v.functions@.len() <= usize::MAX,
    ensures
        forall|i: int|
            #![trigger v.keeps(i)]
            0 <= i < v.functions@.len() ==> (v.shown().contains(i as usize) <==> v.keeps(i)),
        forall|x: usize| v.shown().contains(x) ==> x < v.functions@.len(),
        forall|p: int, q: int| 0 <= p < q < v.shown().len() ==> #[trigger] v.shown()[p] != #[trigger] v.shown()[q],
{
    let keep = |i: int| v.keeps(i);
    lemma_shown_rows(v.functions@.len(), keep, v.entries(), v.sort_dir == SortDir::Desc);
    assert forall|i: int| 0 <= i < v.functions@.len() implies (v.shown().contains(i as usize) <==> #[trigger] v.keeps(i)) by {
        assert(keep(i) == v.keeps(i));
    }
}

/// The secret list shows each secret that passes the filter once, and no
/// other, whatever column and direction it is sorted by.
pub proof fn law_secrets_list_shows_matching_rows(v: crate::ui::services::secrets::SecretsManagerView)
    requires
        v.secrets@.len() <= usize::MAX,
    ensures
        forall|i: int|
            #![trigger v.keeps(i)]
            0 <= i < v.secrets@.len() ==> (v.shown().contains(i as usize) <==> v.keeps(i)),
        forall|x: usize| v.shown().contains(x) ==> x < v.secrets@.len(),
        forall|p: int, q: int| 0 <= p < q < v.shown().len() ==> #[trigger] v.shown()[p] != #[trigger] v.shown()[q],
{
    let keep = |i: int| v.keeps(i);
    lemma_shown_rows(v.secrets@.len(), keep, v.entries(), v.sort_dir == SortDir::Desc);
    assert forall|i: int| 0 <= i < v.secrets@.len() implies (v.shown().contains(i as usize) <==> #[trigger] v.keeps(i)) by {
        assert(keep(i) == v.keeps(i));
    }
}

/// The object list of a bucket shows each object and folder that passes the
/// filter once, and no other, whatever column and direction it is sorted by.
pub proof fn law_s3_objects_show_matching_rows(v: crate::ui::services::s3::S3View)
    requires
        v.objects@.len() <= usize::MAX,
    ensures
        forall|i: int|
            #![trigger v.keeps_object(i)]
            0 <= i < v.objects@.len() ==> (v.shown_objects().contains(i as usize) <==> v.keeps_object(i)),
        forall|x: usize| v.shown_objects().contains(x) ==> x < v.objects@.len(),
        forall|p: int, q: int|
            0 <= p < q < v.shown_objects().len() ==> #[trigger] v.shown_objects()[p] != #[trigger] v.shown_objects()[q],
{
    let keep = |i: int| v.keeps_object(i);
    lemma_shown_rows(v.objects@.len(), keep, v.object_entries(), v.sort_dir == SortDir::Desc);
    assert forall|i: int| 0 <= i < v.objects@.len() implies (v.shown_objects().contains(i as usize) <==> #[trigger] v.keeps_object(i)) by {
        assert(keep(i) == v.keeps_object(i));
    }
}

/// The log group list shows each group that passes the filter once, and no
/// other, whatever column and direction it is sorted by.
pub proof fn law_cloudwatch_groups_show_matching_rows(v: crate::ui::services::cloudwatch::CloudWatchView)
    requires
        v.groups@.len() <= usize::MAX,
    ensures
        forall|i: int|
            #![trigger v.keeps_group(i)]
            0 <= i < v.groups@.len() ==> (v.shown_groups().contains(i as usize) <==> v.keeps_group(i)),
        forall|x: usize| v.shown_groups().contains(x) ==> x < v.groups@.len(),
        forall|p: int, q: int|
            0 <= p < q < v.shown_groups().len() ==> #[trigger] v.shown_groups()[p] != #[trigger] v.shown_groups()[q],
{
    let keep = |i: int| v.keeps_group(i);
    lemma_shown_rows(
        v.groups@.len(),
        keep,
        v.matching_groups().map_values(|i: usize| EntryVal { group: 0, key: v.group_key(i as int) }),
        v.group_sort_dir == SortDir::Desc,
    );
    assert forall|i: int| 0 <= i < v.groups@.len() implies (v.shown_groups().contains(i as usize) <==> #[trigger] v.keeps_group(i)) by {
        assert(keep(i) == v.keeps_group(i));
    }
}


/// The DynamoDB table list shows each table that passes the filter once,
/// and no other, sorted or not.
pub proof fn law_dynamodb_tables_show_matching_rows(v: crate::ui::services::dynamodb::DynamoDbView)
    requires
        v.tables@.len() <= usize::MAX,
    ensures
        forall|i: int|
            #![trigger v.keeps_table(i)]
            0 <= i < v.tables@.len() ==> (v.shown_tables().contains(i as usize) <==> v.keeps_table(i)),
        forall|x: usize| v.shown_tables().contains(x) ==> x < v.tables@.len(),
        forall|p: int, q: int|
            0 <= p < q < v.shown_tables().len() ==> #[trigger] v.shown_tables()[p] != #[trigger] v.shown_tables()[q],
{
    let keep = |i: int| v.keeps_table(i);
    let n = v.tables@.len();
    if v.sort_col_idx is None {
        lemma_positions_where(n, keep);
        lemma_positions_where_exact(n, keep);
        let pos = positions_where(n, keep);
        assert forall|x: usize| pos.contains(x) implies x < n by {
            let t = choose|t: int| 0 <= t < pos.len() && pos[t] == x;
        }
        assert forall|p: int, q: int| 0 <= p < q < pos.len() implies #[trigger] pos[p] != #[trigger] pos[q] by {
            assert(pos[p] < pos[q]);
        }
    } else {
        lemma_shown_rows(
            n,
            keep,
            v.matching_tables().map_values(|i: usize| EntryVal { group: 0, key: v.table_key(i as int) }),
            !v.sort_ascending,
        );
    }
    assert forall|i: int| 0 <= i < n implies (v.shown_tables().contains(i as usize) <==> #[trigger] v.keeps_table(i)) by {
        assert(keep(i) == v.keeps_table(i));
    }
}


/// `i` on the log group list asks Insights for the marked groups, each
/// once and at most 50 of them, or, with none marked, for the first 50
/// shown; the pop-up opens when there is a group to ask for.
pub proof fn law_cloudwatch_insights_groups(
    m: crate::ui::services::cloudwatch::CwState,
    names: Seq<Seq<char>>,
    stream_count: usize,
    event_count: usize,
    k: KeyEvent,
)
    requires
        k.code == KeyCode::Char('i'),
        m.screen == crate::ui::services::cloudwatch::CwScreen::Groups,
        !m.search_popup_open,
        !m.insights_popup_open,
        !m.filtering,
    ensures
        ({
            let (m2, r) = crate::ui::services::cloudwatch::key_step(m, names, stream_count, event_count, k);
            let g = m2.insights_groups;
            let d = crate::ui::services::cloudwatch::distinct_names(m.selected_groups);
            &&& r == Some(Action::NoOp)
            &&& m2.insights_popup_open == (m.selected_groups.len() > 0 || names.len() > 0)
            &&& m.selected_groups.len() > 0 ==> {
                &&& g.len() == (if d.len() > 50 { 50 } else { d.len() })
                &&& forall|x: Seq<char>| g.contains(x) ==> m.selected_groups.contains(x)
                &&& forall|p: int, q: int| 0 <= p < q < g.len() ==> #[trigger] g[p] != #[trigger] g[q]
            }
            &&& (m.selected_groups.len() == 0 && names.len() > 0) ==> g == crate::ui::services::cloudwatch::first_fifty(names)
            &&& (m.selected_groups.len() == 0 && names.len() == 0) ==> g == m.insights_groups
        }),
{
    let d = crate::ui::services::cloudwatch::distinct_names(m.selected_groups);
    crate::ui::services::cloudwatch::lemma_distinct_names(m.selected_groups);
    let (m2, r) = crate::ui::services::cloudwatch::key_step(m, names, stream_count, event_count, k);
    if m.selected_groups.len() > 0 {
        let g = m2.insights_groups;
        assert(g == crate::ui::services::cloudwatch::first_fifty(d));
        assert forall|x: Seq<char>| g.contains(x) implies m.selected_groups.contains(x) by {
            let i = choose|i: int| 0 <= i < g.len() && g[i] == x;
            assert(d[i] == x);
            assert(d.contains(x));
        }
        assert forall|p: int, q: int| 0 <= p < q < g.len() implies #[trigger] g[p] != #[trigger] g[q] by {
            assert(g[p] == d[p] && g[q] == d[q]);
        }
    }
}


// ---------------------------------------------------------------------------
// The profile picker.
// ---------------------------------------------------------------------------

/// The application state after the actions, one after another.
pub open spec fn app_after(
    m: AppState,
    acts: Seq<Action>,
    profiles: Seq<Seq<char>>,
    pick: Option<crate::keys::Service>,
) -> AppState
    decreases acts.len(),
{
    if acts.len() == 0 {
        m
    } else {
        update_step(app_after(m, acts.drop_last(), profiles, pick), acts.last(), profiles, pick)
    }
}

/// On the profile picker, down moves the cursor to the next profile but not
/// past the last, and up to the previous one but not before the first.
pub proof fn law_app_profile_cursor(m: AppState, profiles: Seq<Seq<char>>, pick: Option<crate::keys::Service>)
    requires
        m.profile_selected < profiles.len() <= usize::MAX,
    ensures
        update_step(m, Action::ProfileDown, profiles, pick).profile_selected == (if m.profile_selected + 1
            < profiles.len() {
            m.profile_selected + 1
        } else {
            profiles.len() - 1
        }),
        update_step(m, Action::ProfileUp, profiles, pick).profile_selected == (if m.profile_selected > 0 {
            m.profile_selected - 1
        } else {
            0
        }),
{
}

/// Whatever actions follow one another, the profile cursor stays on one of
/// the profiles.
pub proof fn law_app_profile_cursor_stays(
    m: AppState,
    acts: Seq<Action>,
    profiles: Seq<Seq<char>>,
    pick: Option<crate::keys::Service>,
)
    requires
        m.profile_selected < profiles.len(),
    ensures
        app_after(m, acts, profiles, pick).profile_selected < profiles.len(),
    decreases acts.len(),
{
    if acts.len() > 0 {
        law_app_profile_cursor_stays(m, acts.drop_last(), profiles, pick);
    }
}

// ---------------------------------------------------------------------------
// The CloudWatch events.
// ---------------------------------------------------------------------------

/// The events shown are each event that passes the filter (an empty
/// filter, or the lowercase filter in the lowercase message), once each:
/// their number is the number of such events.
pub proof fn law_cloudwatch_event_count(v: crate::ui::services::cloudwatch::CloudWatchView)
    requires
        v.events@.len() <= usize::MAX,
    ensures
        forall|i: int|
            #![trigger v.keeps_event(i)]
            0 <= i < v.events@.len() ==> (v.shown_events().contains(i as usize) <==> v.keeps_event(i)),
        v.shown_events().no_duplicates(),
        v.shown_events().len() == Set::new(|x: usize| x < v.events@.len() && v.keeps_event(x as int)).len(),
{
    let n = v.events@.len();
    let keep = |i: int| v.keeps_event(i);
    let shown = v.shown_events();
    lemma_positions_where(n, keep);
    lemma_positions_where_exact(n, keep);
    assert forall|i: int| 0 <= i < n implies (shown.contains(i as usize) <==> #[trigger] v.keeps_event(i)) by {
        assert(keep(i) == v.keeps_event(i));
    }
    assert(shown.no_duplicates()) by {
        assert forall|p: int, q: int| 0 <= p < shown.len() && 0 <= q < shown.len() && p != q implies shown[p]
            != shown[q] by {
            if p < q {
                assert(shown[p] < shown[q]);
            } else {
                assert(shown[q] < shown[p]);
            }
        }
    }
    let kept = Set::new(|x: usize| x < n && v.keeps_event(x as int));
    assert(shown.to_set() =~= kept) by {
        assert forall|x: usize| shown.to_set().contains(x) implies kept.contains(x) by {
            let p = choose|p: int| 0 <= p < shown.len() && shown[p] == x;
            assert(shown[p] < n && keep(shown[p] as int));
        }
        assert forall|x: usize| kept.contains(x) implies shown.to_set().contains(x) by {
            assert(v.keeps_event(x as int));
            assert(shown.contains(x as int as usize));
        }
    }
    shown.unique_seq_to_set();
}

// ---------------------------------------------------------------------------
// The Lambda filter.
// ---------------------------------------------------------------------------

/// The Lambda state after the keys, one after another, each read with the
/// number of rows listed at that moment.
pub open spec fn lambda_after(
    m: crate::ui::services::lambda::LambdaState,
    keys: Seq<KeyEvent>,
    counts: Seq<usize>,
) -> crate::ui::services::lambda::LambdaState
    decreases keys.len(),
{
    if keys.len() == 0 {
        m
    } else {
        crate::ui::services::lambda::key_step(
            lambda_after(m, keys.drop_last(), counts),
            counts[keys.len() - 1],
            keys.last(),
        ).0
    }
}

/// What each of those keys left for the application to do.
pub open spec fn lambda_answers(
    m: crate::ui::services::lambda::LambdaState,
    keys: Seq<KeyEvent>,
    counts: Seq<usize>,
) -> Seq<Option<Action>>
    decreases keys.len(),
{
    if keys.len() == 0 {
        Seq::empty()
    } else {
        lambda_answers(m, keys.drop_last(), counts).push(
            crate::ui::services::lambda::key_step(
                lambda_after(m, keys.drop_last(), counts),
                counts[keys.len() - 1],
                keys.last(),
            ).1,
        )
    }
}

/// On the function list, `/` and then the characters of `q` type `q` as
/// the filter: every key is handled there, typing goes on, the cursor is
/// on the first row once a character is typed; then Enter stops typing and
/// keeps the filter, and Esc stops typing and drops it.
pub proof fn law_lambda_typed_filter(
    m: crate::ui::services::lambda::LambdaState,
    keys: Seq<KeyEvent>,
    counts: Seq<usize>,
    q: Seq<char>,
)
    requires
        m.screen == crate::ui::services::lambda::LambdaScreen::Functions,
        !m.filtering,
        keys.len() == q.len() + 1,
        counts.len() >= keys.len(),
        crate::input::is_char(keys[0], '/'),
        forall|i: int| 0 <= i < q.len() ==> #[trigger] keys[i + 1].code == KeyCode::Char(q[i]),
    ensures
        ({
            let s = lambda_after(m, keys, counts);
            &&& s.screen == crate::ui::services::lambda::LambdaScreen::Functions
            &&& s.filtering
            &&& s.filter == q
            &&& q.len() > 0 ==> s.selected == 0
            &&& forall|c: usize, k: KeyEvent|
                k.code == KeyCode::Enter ==> #[trigger] crate::ui::services::lambda::key_step(s, c, k) == (
                crate::ui::services::lambda::LambdaState { filtering: false, ..s },
                Some(Action::NoOp),
            )
            &&& forall|c: usize, k: KeyEvent|
                k.code == KeyCode::Esc ==> #[trigger] crate::ui::services::lambda::key_step(s, c, k) == (
                crate::ui::services::lambda::LambdaState { filtering: false, filter: Seq::empty(), ..s },
                Some(Action::NoOp),
            )
        }),
        lambda_answers(m, keys, counts).len() == keys.len(),
        forall|i: int| 0 <= i < keys.len() ==> #[trigger] lambda_answers(m, keys, counts)[i] == Some(Action::NoOp),
    decreases keys.len(),
{
    let last = keys.last();
    if keys.len() > 1 {
        let q0 = q.drop_last();
        let k0 = keys.drop_last();
        assert forall|i: int| 0 <= i < q0.len() implies #[trigger] k0[i + 1].code == KeyCode::Char(q0[i]) by {
            assert(keys[i + 1].code == KeyCode::Char(q[i]));
        }
        law_lambda_typed_filter(m, k0, counts, q0);
        assert(last.code == KeyCode::Char(q[q.len() - 1])) by {
            assert(keys[(q.len() - 1) + 1].code == KeyCode::Char(q[q.len() - 1]));
        }
        assert(q0.push(q.last()) =~= q);
    } else {
        assert(q =~= Seq::<char>::empty());
        assert(keys.drop_last().len() == 0);
        assert(lambda_after(m, keys.drop_last(), counts) == m);
        assert(lambda_answers(m, keys.drop_last(), counts) =~= Seq::<Option<Action>>::empty());
    }
}

// ---------------------------------------------------------------------------
// The DynamoDB lists.
// ---------------------------------------------------------------------------

/// The DynamoDB state after the keys, one after another, all read with the
/// same context.
pub open spec fn dynamodb_after(
    m: crate::ui::services::dynamodb::DdbState,
    c: crate::ui::services::dynamodb::DdbCtx,
    keys: Seq<KeyEvent>,
) -> crate::ui::services::dynamodb::DdbState
    decreases keys.len(),
{
    if keys.len() == 0 {
        m
    } else {
        crate::ui::services::dynamodb::key_step(dynamodb_after(m, c, keys.drop_last()), c, keys.last()).0
    }
}

/// What each of those keys left for the application to do.
pub open spec fn dynamodb_answers(
    m: crate::ui::services::dynamodb::DdbState,
    c: crate::ui::services::dynamodb::DdbCtx,
    keys: Seq<KeyEvent>,
) -> Seq<Option<Action>>
    decreases keys.len(),
{
    if keys.len() == 0 {
        Seq::empty()
    } else {
        dynamodb_answers(m, c, keys.drop_last()).push(
            crate::ui::services::dynamodb::key_step(dynamodb_after(m, c, keys.drop_last()), c, keys.last()).1,
        )
    }
}

/// On a DynamoDB list, any run of cursor keys (`j`, `k`, the arrows, `g`,
/// `G`) is handled there and keeps the cursor on one of the rows; right
/// after `G` it is on the last row.
pub proof fn law_dynamodb_cursor_keys(
    m: crate::ui::services::dynamodb::DdbState,
    c: crate::ui::services::dynamodb::DdbCtx,
    keys: Seq<KeyEvent>,
)
    requires
        m.screen == crate::ui::services::dynamodb::DdbScreen::Tables || m.screen
            == crate::ui::services::dynamodb::DdbScreen::Items,
        !m.filtering,
        !m.index_picker_open,
        !m.query_builder_open,
        m.selected < c.rows <= usize::MAX,
        forall|i: int| 0 <= i < keys.len() ==> crate::ui::services::dynamodb::is_row_nav(#[trigger] keys[i]),
    ensures
        dynamodb_after(m, c, keys).screen == m.screen,
        !dynamodb_after(m, c, keys).filtering,
        !dynamodb_after(m, c, keys).index_picker_open,
        !dynamodb_after(m, c, keys).query_builder_open,
        dynamodb_after(m, c, keys).selected < c.rows,
        keys.len() > 0 && crate::input::is_char(keys.last(), 'G') ==> dynamodb_after(m, c, keys).selected == c.rows
            - 1,
        dynamodb_answers(m, c, keys).len() == keys.len(),
        forall|i: int| 0 <= i < keys.len() ==> #[trigger] dynamodb_answers(m, c, keys)[i] == Some(Action::NoOp),
    decreases keys.len(),
{
    if keys.len() > 0 {
        let k0 = keys.drop_last();
        assert forall|i: int| 0 <= i < k0.len() implies crate::ui::services::dynamodb::is_row_nav(#[trigger] k0[i]) by {
            assert(k0[i] == keys[i]);
        }
        law_dynamodb_cursor_keys(m, c, k0);
        assert(crate::ui::services::dynamodb::is_row_nav(keys[keys.len() - 1]));
    }
}

/// On a DynamoDB list, `j` on the last row and `k` on the first leave the
/// cursor where it is.
pub proof fn law_dynamodb_cursor_edges(
    m: crate::ui::services::dynamodb::DdbState,
    c: crate::ui::services::dynamodb::DdbCtx,
    k: KeyEvent,
)
    requires
        m.screen == crate::ui::services::dynamodb::DdbScreen::Tables || m.screen
            == crate::ui::services::dynamodb::DdbScreen::Items,
        !m.filtering,
        !m.index_picker_open,
        !m.query_builder_open,
        m.selected < c.rows <= usize::MAX,
    ensures
        crate::input::is_down(k) && m.selected == c.rows - 1 ==> crate::ui::services::dynamodb::key_step(m, c, k).0.selected
            == m.selected,
        crate::input::is_up(k) && m.selected == 0 ==> crate::ui::services::dynamodb::key_step(m, c, k).0.selected
            == m.selected,
{
}

/// `n` on the DynamoDB items: when a next page exists and still has to be
/// fetched, the items load and the fetch is asked for, on the same page;
/// when it is loaded, it is shown; with no next page nothing changes.
pub proof fn law_dynamodb_next_page_key(v: crate::ui::services::dynamodb::DynamoDbView, k: KeyEvent)
    requires
        v.state().screen == crate::ui::services::dynamodb::DdbScreen::Items,
        !v.state().filtering,
        !v.state().index_picker_open,
        !v.state().query_builder_open,
        crate::input::is_char(k, 'n'),
        v.state().current_page < usize::MAX,
    ensures
        ({
            let (s, r) = crate::ui::services::dynamodb::key_step(v.state(), v.ctx(), k);
            &&& v.next_page_exists() && v.next_page_missing() ==> {
                &&& r == Some(Action::DdbNextPage)
                &&& s.loading
                &&& s.screen == crate::ui::services::dynamodb::DdbScreen::Items
                &&& s.current_page == v.state().current_page
            }
            &&& v.next_page_exists() && !v.next_page_missing() ==> {
                &&& r == Some(Action::NoOp)
                &&& s.current_page == v.state().current_page + 1
                &&& s.selected == 0
            }
            &&& !v.next_page_exists() ==> r == Some(Action::NoOp) && s == v.state()
        }),
{
}

// ---------------------------------------------------------------------------
// Truncation.
// ---------------------------------------------------------------------------

/// A text cut to `max` characters has `max` characters, or fewer when the
/// text had fewer.
pub proof fn law_truncate_chars_length(s: Seq<char>, max: nat)
    ensures
        crate::text::truncated_chars(s, max).len() == (if s.len() < max {
            s.len()
        } else {
            max
        }),
{
}

/// On ASCII text the byte-wise and the character-wise truncations agree,
/// and the byte-wise cut always falls between characters.
pub proof fn law_truncate_ascii_agrees(s: Seq<char>, max: nat)
    requires
        vstd::utf8::is_ascii_chars(s),
    ensures
        crate::text::truncation_is_safe(s, max),
        crate::text::truncated(s, max) == crate::text::truncated_chars(s, max),
{
    broadcast use vstd::utf8::is_ascii_chars_encode_utf8, vstd::utf8::encode_utf8_valid_utf8, vstd::utf8::encode_utf8_decode_utf8;

    let bytes = vstd::utf8::encode_utf8(s);
    let cut = crate::text::truncate_cut(max) as int;
    if bytes.len() > max {
        assert(cut < bytes.len());
        let head = s.take(cut);
        assert(vstd::utf8::is_ascii_chars(head)) by {
            assert forall|i: int| 0 <= i < head.len() implies '\0' <= #[trigger] head[i] <= '\u{7f}' by {
                assert(head[i] == s[i]);
            }
        }
        assert(vstd::utf8::encode_utf8(head) =~= bytes.subrange(0, cut)) by {
            assert forall|i: int| 0 <= i < cut implies #[trigger] vstd::utf8::encode_utf8(head)[i] == bytes[i] by {
                assert(head[i] == s[i]);
            }
        }
        assert(vstd::utf8::decode_utf8(bytes.subrange(0, cut)) == head);
        vstd::utf8::is_char_boundary_iff_not_is_continuation_byte(bytes, cut);
        assert(s[cut] as u8 == bytes[cut]);
        assert(!vstd::utf8::is_continuation_byte(bytes[cut]));
    }
}


/// Paging through `pages` loaded pages: forward shows the next page and
/// back the previous one, each with the cursor on its first row; at the
/// last (first) page forward (back) changes nothing; back after forward,
/// and forward after back, return to the page left.
pub proof fn law_dynamodb_page_moves(m: crate::ui::services::dynamodb::DdbState, pages: nat)
    requires
        m.current_page < pages <= usize::MAX,
    ensures
        m.current_page + 1 < pages ==> {
            let f = crate::ui::services::dynamodb::page_forward(m, pages);
            &&& f.current_page == m.current_page + 1
            &&& f.showing_page
            &&& f.selected == 0
        },
        m.current_page > 0 ==> {
            let b = crate::ui::services::dynamodb::page_back(m);
            &&& b.current_page == m.current_page - 1
            &&& b.showing_page
            &&& b.selected == 0
        },
        m.current_page + 1 == pages ==> crate::ui::services::dynamodb::page_forward(m, pages) == m,
        m.current_page == 0 ==> crate::ui::services::dynamodb::page_back(m) == m,
        m.current_page + 1 < pages ==> crate::ui::services::dynamodb::page_back(
            crate::ui::services::dynamodb::page_forward(m, pages),
        ) == crate::ui::services::dynamodb::to_page(m, m.current_page),
        m.current_page > 0 ==> crate::ui::services::dynamodb::page_forward(
            crate::ui::services::dynamodb::page_back(m),
            pages,
        ) == crate::ui::services::dynamodb::to_page(m, m.current_page),
{
}

/// Every position below `n` kept: the positions are `0, 1, ..., n - 1`.
proof fn lemma_all_positions(n: nat, keep: spec_fn(int) -> bool)
    requires
        n <= usize::MAX,
        forall|i: int| 0 <= i < n ==> #[trigger] keep(i),
    ensures
        positions_where(n, keep) =~= Seq::new(n, |i: int| i as usize),
    decreases n,
{
    if n > 0 {
        lemma_all_positions((n - 1) as nat, keep);
        assert(keep(n - 1));
    }
}

/// With no filter the DynamoDB items list every item of the page shown, in
/// page order: on the first row is the page's first item.
pub proof fn law_dynamodb_unfiltered_items(v: crate::ui::services::dynamodb::DynamoDbView)
    requires
        v.filter@.len() == 0,
        v.page_items().len() <= usize::MAX,
    ensures
        v.matching_items() == Seq::new(v.page_items().len(), |i: int| i as usize),
        v.page_items().len() > 0 ==> v.matching_items()[0] == 0,
{
    let keep = |i: int| v.keeps_item(i);
    assert forall|i: int| 0 <= i < v.page_items().len() implies #[trigger] keep(i) by {
        assert(v.keeps_item(i));
    }
    lemma_all_positions(v.page_items().len(), keep);
}


/// A Lambda view whose state is that reached by typing `/` and `q` (see
/// `law_lambda_typed_filter`) lists exactly the functions whose lowercase
/// name, runtime or description holds the lowercase `q`, with the cursor
/// on the first of them in display order.
pub proof fn law_lambda_typed_filter_shows(
    m: crate::ui::services::lambda::LambdaState,
    keys: Seq<KeyEvent>,
    counts: Seq<usize>,
    q: Seq<char>,
    w: crate::ui::services::lambda::LambdaView,
)
    requires
        m.screen == crate::ui::services::lambda::LambdaScreen::Functions,
        !m.filtering,
        keys.len() == q.len() + 1,
        counts.len() >= keys.len(),
        crate::input::is_char(keys[0], '/'),
        forall|i: int| 0 <= i < q.len() ==> #[trigger] keys[i + 1].code == KeyCode::Char(q[i]),
        q.len() > 0,
        w.state() == lambda_after(m, keys, counts),
        w.functions@.len() <= usize::MAX,
    ensures
        w.selected == 0,
        forall|i: int|
            #![trigger w.shown().contains(i as usize)]
            0 <= i < w.functions@.len() ==> (w.shown().contains(i as usize) <==> {
                let f = crate::text::lowercase(q);
                let func = w.functions@[i];
                ||| crate::text::seq_contains(crate::text::lowercase(func.name@), f)
                ||| crate::text::seq_contains(crate::text::lowercase(func.runtime@), f)
                ||| crate::text::seq_contains(crate::text::lowercase(func.description@), f)
            }),
{
    law_lambda_typed_filter(m, keys, counts, q);
    law_lambda_list_shows_matching_rows(w);
    assert(w.filter@ == q);
    assert forall|i: int| 0 <= i < w.functions@.len() implies #[trigger] w.shown().contains(i as usize) <==> {
        let f = crate::text::lowercase(q);
        let func = w.functions@[i];
        ||| crate::text::seq_contains(crate::text::lowercase(func.name@), f)
        ||| crate::text::seq_contains(crate::text::lowercase(func.runtime@), f)
        ||| crate::text::seq_contains(crate::text::lowercase(func.description@), f)
    } by {
        assert(w.shown().contains(i as usize) <==> w.keeps(i));
    }
}


// ---------------------------------------------------------------------------
// Runs of key presses on the views.
// ---------------------------------------------------------------------------

/// Two DynamoDB views with the same tables, filter and sort list the same
/// tables in the same order.
proof fn lemma_same_shown_tables(
    v: crate::ui::services::dynamodb::DynamoDbView,
    w: crate::ui::services::dynamodb::DynamoDbView,
)
    requires
        v.tables == w.tables,
        v.filter@ == w.filter@,
        v.sort_col_idx == w.sort_col_idx,
        v.sort_ascending == w.sort_ascending,
    ensures
        v.shown_tables() == w.shown_tables(),
{
    assert((|i: int| v.keeps_table(i)) =~= (|i: int| w.keeps_table(i)));
    assert(v.matching_tables() == w.matching_tables());
    assert(v.matching_tables().map_values(|i: usize| EntryVal { group: 0, key: v.table_key(i as int) })
        =~= w.matching_tables().map_values(|i: usize| EntryVal { group: 0, key: w.table_key(i as int) }));
}

/// Any run of cursor keys sent to the DynamoDB table list, one
/// `handle_key` call after another (`vs[i + 1]` and `answers[i]` are the
/// view and answer of the call on `vs[i]` with `keys[i]`, see
/// `key_handled`): each
/// call answers `NoOp`, the list stays the same and the cursor on one of
/// its tables; right after `G` it is on the last table; `j` on the last
/// table and `k` on the first leave it there.
pub proof fn law_dynamodb_table_cursor_run(
    vs: Seq<crate::ui::services::dynamodb::DynamoDbView>,
    keys: Seq<KeyEvent>,
    answers: Seq<Option<Action>>,
)
    requires
        vs.len() == keys.len() + 1,
        answers.len() == keys.len(),
        vs[0].screen == crate::ui::services::dynamodb::DdbScreen::Tables,
        !vs[0].filtering,
        !vs[0].index_picker_open,
        !vs[0].query_builder_open,
        vs[0].selected < vs[0].shown_tables().len() <= usize::MAX,
        forall|i: int| 0 <= i < keys.len() ==> crate::ui::services::dynamodb::is_row_nav(#[trigger] keys[i]),
        forall|i: int| 0 <= i < keys.len() ==> #[trigger] crate::ui::services::dynamodb::key_handled(vs[i], keys[i], vs[i + 1], answers[i]),
    ensures
        forall|i: int|
            #![trigger vs[i]]
            0 <= i < vs.len() ==> {
                &&& vs[i].shown_tables() == vs[0].shown_tables()
                &&& vs[i].selected < vs[0].shown_tables().len()
                &&& vs[i].screen == crate::ui::services::dynamodb::DdbScreen::Tables
                &&& !vs[i].filtering
                &&& !vs[i].index_picker_open
                &&& !vs[i].query_builder_open
            },
        forall|i: int| 0 <= i < keys.len() ==> #[trigger] answers[i] == Some(Action::NoOp),
        forall|i: int|
            0 <= i < keys.len() && crate::input::is_char(#[trigger] keys[i], 'G') ==> vs[i + 1].selected
                == vs[0].shown_tables().len() - 1,
        forall|i: int|
            0 <= i < keys.len() && crate::input::is_down(#[trigger] keys[i]) && vs[i].selected
                == vs[0].shown_tables().len() - 1 ==> vs[i + 1].selected == vs[i].selected,
        forall|i: int|
            0 <= i < keys.len() && crate::input::is_up(#[trigger] keys[i]) && vs[i].selected == 0 ==> vs[i
                + 1].selected == 0,
    decreases keys.len(),
{
    if keys.len() > 0 {
        let k = keys.len() - 1;
        let vs0 = vs.drop_last();
        let keys0 = keys.drop_last();
        let answers0 = answers.drop_last();
        assert forall|i: int| 0 <= i < keys0.len() implies crate::ui::services::dynamodb::is_row_nav(
            #[trigger] keys0[i],
        ) by {
            assert(keys0[i] == keys[i]);
        }
        assert forall|i: int| 0 <= i < keys0.len() implies #[trigger] crate::ui::services::dynamodb::key_handled(
            vs0[i],
            keys0[i],
            vs0[i + 1],
            answers0[i],
        ) by {
            assert(vs0[i + 1] == vs[i + 1] && vs0[i] == vs[i] && answers0[i] == answers[i] && keys0[i] == keys[i]);
            assert(crate::ui::services::dynamodb::key_handled(vs[i], keys[i], vs[i + 1], answers[i]));
        }
        law_dynamodb_table_cursor_run(vs0, keys0, answers0);
        let a = vs[k];
        let b = vs[k + 1];
        assert(a == vs0[k]);
        assert(a.shown_tables() == vs[0].shown_tables());
        assert(crate::ui::services::dynamodb::is_row_nav(keys[k]));
        assert(crate::ui::services::dynamodb::key_handled(vs[k], keys[k], vs[k + 1], answers[k]));
        assert(b.tables == a.tables);
        assert(a.ctx().rows == a.shown_tables().len());
        assert(b.state() == crate::ui::services::dynamodb::row_nav_step(a.state(), a.ctx().rows, keys[k]));
        assert(b.filter@ == b.state().filter);
        lemma_same_shown_tables(a, b);
        law_dynamodb_cursor_stays_on_rows(a.selected, a.pending_g, a.ctx().rows as usize, keys[k]);
        assert(b.selected == b.state().selected && b.screen == b.state().screen && b.filtering == b.state().filtering);
        assert(b.index_picker_open == b.state().index_picker_open && b.query_builder_open
            == b.state().query_builder_open);
        assert(b.selected < vs[0].shown_tables().len());
        assert forall|i: int| #![trigger vs[i]] 0 <= i < vs.len() implies {
            &&& vs[i].shown_tables() == vs[0].shown_tables()
            &&& vs[i].selected < vs[0].shown_tables().len()
            &&& vs[i].screen == crate::ui::services::dynamodb::DdbScreen::Tables
            &&& !vs[i].filtering
            &&& !vs[i].index_picker_open
            &&& !vs[i].query_builder_open
        } by {
            assert(vs0[0] == vs[0]);
            if i < vs0.len() {
                assert(vs[i] == vs0[i]);
                assert(vs0[i].shown_tables() == vs0[0].shown_tables());
            } else {
                assert(vs[i] == b);
            }
        }
        assert forall|i: int| 0 <= i < keys.len() implies #[trigger] answers[i] == Some(Action::NoOp) by {
            if i < k {
                assert(answers[i] == answers0[i]);
            }
        }
        assert forall|i: int|
            0 <= i < keys.len() && crate::input::is_char(#[trigger] keys[i], 'G') implies vs[i + 1].selected
                == vs[0].shown_tables().len() - 1 by {
            if i < k {
                assert(keys[i] == keys0[i] && vs[i + 1] == vs0[i + 1]);
            }
        }
        assert forall|i: int|
            0 <= i < keys.len() && crate::input::is_down(#[trigger] keys[i]) && vs[i].selected
                == vs[0].shown_tables().len() - 1 implies vs[i + 1].selected == vs[i].selected by {
            if i < k {
                assert(keys[i] == keys0[i] && vs[i + 1] == vs0[i + 1] && vs[i] == vs0[i]);
            }
        }
        assert forall|i: int|
            0 <= i < keys.len() && crate::input::is_up(#[trigger] keys[i]) && vs[i].selected == 0 implies vs[i
                + 1].selected == 0 by {
            if i < k {
                assert(keys[i] == keys0[i] && vs[i + 1] == vs0[i + 1] && vs[i] == vs0[i]);
            }
        }
    } else {
        assert forall|i: int| #![trigger vs[i]] 0 <= i < vs.len() implies {
            &&& vs[i].shown_tables() == vs[0].shown_tables()
            &&& vs[i].selected < vs[0].shown_tables().len()
            &&& vs[i].screen == crate::ui::services::dynamodb::DdbScreen::Tables
            &&& !vs[i].filtering
            &&& !vs[i].index_picker_open
            &&& !vs[i].query_builder_open
        } by {
            assert(i == 0);
        }
    }
}


/// The row counts a run of Lambda views listed before each key.
pub open spec fn lambda_counts(vs: Seq<crate::ui::services::lambda::LambdaView>, n: nat) -> Seq<usize> {
    Seq::new(n, |i: int| vs[i].shown().len() as usize)
}

/// Along a run of `handle_key` calls, each view's state is that reached by
/// the keys so far, and the answers are those of the steps.
proof fn lemma_lambda_run(
    vs: Seq<crate::ui::services::lambda::LambdaView>,
    keys: Seq<KeyEvent>,
    answers: Seq<Option<Action>>,
    j: int,
)
    requires
        vs.len() == keys.len() + 1,
        answers.len() == keys.len(),
        0 <= j <= keys.len(),
        forall|i: int|
            0 <= i < keys.len() ==> #[trigger] crate::ui::services::lambda::key_handled(
                vs[i],
                keys[i],
                vs[i + 1],
                answers[i],
            ),
    ensures
        vs[j].functions == vs[0].functions,
        vs[j].state() == lambda_after(vs[0].state(), keys.take(j), lambda_counts(vs, keys.len())),
        answers.take(j) == lambda_answers(vs[0].state(), keys.take(j), lambda_counts(vs, keys.len())),
    decreases j,
{
    let counts = lambda_counts(vs, keys.len());
    if j == 0 {
        assert(keys.take(0) =~= Seq::<KeyEvent>::empty());
        assert(answers.take(0) =~= Seq::<Option<Action>>::empty());
    } else {
        lemma_lambda_run(vs, keys, answers, j - 1);
        let i = j - 1;
        assert(crate::ui::services::lambda::key_handled(vs[i], keys[i], vs[i + 1], answers[i]));
        assert(vs[i + 1] == vs[j]);
        assert(keys.take(j).drop_last() =~= keys.take(j - 1));
        assert(keys.take(j).last() == keys[j - 1]);
        assert(counts[j - 1] == vs[j - 1].shown().len() as usize);
        assert(answers.take(j) =~= answers.take(j - 1).push(answers[j - 1]));
    }
}

/// Typing `/` and then the characters of `q` (at least one) into the Lambda
/// function list, one `handle_key` call after another (`vs[i + 1]` and
/// `answers[i]` are the view and answer of the call on `vs[i]` with
/// `keys[i]`, see `key_handled`): each call answers `NoOp`; typing goes
/// on; the filter is `q`; the cursor is on the first row; the list holds
/// exactly the functions whose lowercase name, runtime or description holds
/// the lowercase `q`. Then Enter stops typing and keeps the filter, and Esc
/// stops typing, drops the filter and lists every function again.
pub proof fn law_lambda_typed_filter_run(
    vs: Seq<crate::ui::services::lambda::LambdaView>,
    keys: Seq<KeyEvent>,
    answers: Seq<Option<Action>>,
    q: Seq<char>,
)
    requires
        vs.len() == keys.len() + 1,
        answers.len() == keys.len(),
        vs[0].screen == crate::ui::services::lambda::LambdaScreen::Functions,
        !vs[0].filtering,
        vs[0].functions@.len() <= usize::MAX,
        keys.len() == q.len() + 1,
        q.len() > 0,
        crate::input::is_char(keys[0], '/'),
        forall|i: int| 0 <= i < q.len() ==> #[trigger] keys[i + 1].code == KeyCode::Char(q[i]),
        forall|i: int|
            0 <= i < keys.len() ==> #[trigger] crate::ui::services::lambda::key_handled(
                vs[i],
                keys[i],
                vs[i + 1],
                answers[i],
            ),
    ensures
        forall|i: int| 0 <= i < keys.len() ==> #[trigger] answers[i] == Some(Action::NoOp),
        ({
            let w = vs.last();
            &&& w.filtering
            &&& w.filter@ == q
            &&& w.selected == 0
            &&& forall|i: int|
                #![trigger w.shown().contains(i as usize)]
                0 <= i < w.functions@.len() ==> (w.shown().contains(i as usize) <==> {
                    let f = crate::text::lowercase(q);
                    let func = w.functions@[i];
                    ||| crate::text::seq_contains(crate::text::lowercase(func.name@), f)
                    ||| crate::text::seq_contains(crate::text::lowercase(func.runtime@), f)
                    ||| crate::text::seq_contains(crate::text::lowercase(func.description@), f)
                })
            &&& forall|k: KeyEvent, w2: crate::ui::services::lambda::LambdaView, r: Option<Action>|
                k.code == KeyCode::Enter && #[trigger] crate::ui::services::lambda::key_handled(w, k, w2, r) ==> {
                    &&& r == Some(Action::NoOp)
                    &&& !w2.filtering
                    &&& w2.filter@ == q
                }
            &&& forall|k: KeyEvent, w2: crate::ui::services::lambda::LambdaView, r: Option<Action>|
                k.code == KeyCode::Esc && #[trigger] crate::ui::services::lambda::key_handled(w, k, w2, r) ==> {
                    &&& r == Some(Action::NoOp)
                    &&& !w2.filtering
                    &&& w2.filter@.len() == 0
                    &&& forall|i: int| 0 <= i < w2.functions@.len() ==> #[trigger] w2.shown().contains(i as usize)
                }
        }),
{
    let n = keys.len();
    let counts = lambda_counts(vs, n);
    let m = vs[0].state();
    lemma_lambda_run(vs, keys, answers, n as int);
    assert(keys.take(n as int) =~= keys);
    assert(answers.take(n as int) =~= answers);
    let w = vs.last();
    assert(w == vs[n as int]);
    law_lambda_typed_filter(m, keys, counts, q);
    law_lambda_typed_filter_shows(m, keys, counts, q, w);
    assert(w.filter@ == w.state().filter && w.filtering == w.state().filtering && w.selected == w.state().selected);
    assert forall|k: KeyEvent, w2: crate::ui::services::lambda::LambdaView, r: Option<Action>|
        k.code == KeyCode::Esc && #[trigger] crate::ui::services::lambda::key_handled(w, k, w2, r) implies {
        &&& r == Some(Action::NoOp)
        &&& !w2.filtering
        &&& w2.filter@.len() == 0
        &&& forall|i: int| 0 <= i < w2.functions@.len() ==> #[trigger] w2.shown().contains(i as usize)
    } by {
        assert(w2.filter@ == w2.state().filter && w2.filtering == w2.state().filtering);
        law_lambda_list_shows_matching_rows(w2);
        assert forall|i: int| 0 <= i < w2.functions@.len() implies #[trigger] w2.shown().contains(i as usize) by {
            assert(w2.keeps(i));
        }
    }
    assert forall|k: KeyEvent, w2: crate::ui::services::lambda::LambdaView, r: Option<Action>|
        k.code == KeyCode::Enter && #[trigger] crate::ui::services::lambda::key_handled(w, k, w2, r) implies {
        &&& r == Some(Action::NoOp)
        &&& !w2.filtering
        &&& w2.filter@ == q
    } by {
        assert(w2.filter@ == w2.state().filter && w2.filtering == w2.state().filtering);
    }
}


/// Paging on the DynamoDB items with no filter (`w` is the view after
/// `next_page` on `v` when `forward`, else after `prev_page`, where that
/// page exists): the next (previous) page is shown with the cursor on its
/// first row, which holds the page's first item.
pub proof fn law_dynamodb_paging_shows_first_item(
    v: crate::ui::services::dynamodb::DynamoDbView,
    w: crate::ui::services::dynamodb::DynamoDbView,
    forward: bool,
)
    requires
        v.wf(),
        v.filter@.len() == 0,
        w.same_data(v),
        w.state() == (if forward {
            crate::ui::services::dynamodb::page_forward(v.state(), v.all_pages@.len())
        } else {
            crate::ui::services::dynamodb::page_back(v.state())
        }),
        forward ==> v.current_page + 1 < v.all_pages@.len(),
        !forward ==> v.current_page > 0,
        v.all_pages@.len() <= usize::MAX,
        w.page_items().len() <= usize::MAX,
    ensures
        w.current_page == (if forward {
            v.current_page + 1
        } else {
            v.current_page - 1
        }),
        w.selected == 0,
        w.showing_page,
        w.page_items() == v.all_pages@[w.current_page as int].items@,
        w.page_items().len() > 0 ==> w.matching_items()[0] == 0,
{
    assert(w.current_page == w.state().current_page && w.selected == w.state().selected && w.showing_page
        == w.state().showing_page && w.filter@ == w.state().filter);
    assert(w.all_pages == v.all_pages);
    law_dynamodb_unfiltered_items(w);
}

} // verus!
