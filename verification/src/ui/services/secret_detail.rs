//! The rows of a secret's detail screen: which rows appear, what they say,
//! and that the secret value shows only once it is revealed.
use vstd::prelude::*;
use crate::aws::secrets::SecretDetail;
use crate::text::{join_strings, joined, owned, push_digits, push_int, digits, int_text, push_str, texts};
use crate::ui::services::secrets::{json_pretty, secret_value_lines, value_lines_of};

verus! {

/// How a field's value is coloured.
#[derive(Debug, Clone, Copy, PartialEq, Eq, Structural)]
pub enum Tone {
    Plain,
    Link,
    Warning,
    Good,
}

/// A row of the detail screen.
#[derive(Debug)]
pub enum DetailRow {
    Blank,
    Heading(String),
    /// A label and its value.
    Field(String, String, Tone),
    /// A note in grey (the hidden value, a binary secret, no value).
    Muted(String),
    /// A line of the revealed secret value.
    SecretLine(String),
    /// The key that reveals or hides the value, and what it does.
    Toggle(String),
    /// A version id and its stages.
    Version(String, String),
}

/// A row as plain values.
pub ghost enum RowView {
    Blank,
    Heading(Seq<char>),
    Field(Seq<char>, Seq<char>, Tone),
    Muted(Seq<char>),
    SecretLine(Seq<char>),
    Toggle(Seq<char>),
    Version(Seq<char>, Seq<char>),
}

impl DetailRow {
    pub open spec fn view(&self) -> RowView {
        match self {
            DetailRow::Blank => RowView::Blank,
            DetailRow::Heading(t) => RowView::Heading(t@),
            DetailRow::Field(l, v, t) => RowView::Field(l@, v@, *t),
            DetailRow::Muted(t) => RowView::Muted(t@),
            DetailRow::SecretLine(t) => RowView::SecretLine(t@),
            DetailRow::Toggle(t) => RowView::Toggle(t@),
            DetailRow::Version(i, s) => RowView::Version(i@, s@),
        }
    }
}

/// The rows as plain values.
pub open spec fn row_views(rows: Seq<DetailRow>) -> Seq<RowView> {
    rows.map_values(|r: DetailRow| r.view())
}

/// A field row when the value is there, else nothing.
pub open spec fn opt_field(label: Seq<char>, value: Option<String>, tone: Tone) -> Seq<RowView> {
    match value {
        Some(v) => seq![RowView::Field(label, v@, tone)],
        None => Seq::empty(),
    }
}

/// The details of the secret: name, ARN, then each of description, KMS
/// key, creation, last change, last access and deletion date that is set.
pub open spec fn info_rows(d: SecretDetail) -> Seq<RowView> {
    seq![
        RowView::Blank,
        RowView::Heading("Secret Details"@),
        RowView::Blank,
        RowView::Field("Name"@, d.name@, Tone::Plain),
        RowView::Field("ARN"@, d.arn@, Tone::Link),
    ] + (if d.description@.len() > 0 {
        seq![RowView::Field("Description"@, d.description@, Tone::Plain)]
    } else {
        Seq::empty()
    }) + opt_field("KMS Key ID"@, d.kms_key_id, Tone::Plain) + opt_field("Created"@, d.created, Tone::Plain)
        + opt_field("Last Changed"@, d.last_changed, Tone::Plain) + opt_field(
        "Last Accessed"@,
        d.last_accessed,
        Tone::Plain,
    ) + opt_field("Deletion Date"@, d.deleted_date, Tone::Warning)
}

/// The rotation: enabled or not, then the interval in days, the rotation
/// function and the last rotation where they are set.
pub open spec fn rotation_rows(d: SecretDetail) -> Seq<RowView> {
    seq![
        RowView::Blank,
        RowView::Heading("Rotation"@),
        RowView::Blank,
        if d.rotation_enabled {
            RowView::Field("Rotation"@, "Enabled"@, Tone::Good)
        } else {
            RowView::Field("Rotation"@, "Disabled"@, Tone::Plain)
        },
    ] + (match d.rotation_days {
        Some(n) => seq![RowView::Field("Rotation Interval"@, int_text(n as int) + " days"@, Tone::Plain)],
        None => Seq::empty(),
    }) + opt_field("Rotation Lambda"@, d.rotation_lambda_arn, Tone::Plain) + opt_field(
        "Last Rotated"@,
        d.last_rotated,
        Tone::Plain,
    )
}

/// The text standing for a hidden secret value.
pub open spec fn mask_text() -> Seq<char> {
    "••••••••••••••••••••••••••••••••"@
}

/// The value section: a binary secret is not previewed; a text value shows
/// as its lines (see `value_lines_of`) once revealed, else as a mask; then
/// the key that reveals or hides it.
pub open spec fn value_rows(d: SecretDetail, show: bool) -> Seq<RowView> {
    seq![RowView::Blank, RowView::Heading("Secret Value"@), RowView::Blank] + (if d.secret_binary {
        seq![RowView::Muted("(binary secret — preview not available)"@)]
    } else {
        match d.secret_value {
            Some(v) => if show {
                value_lines_of(v@, json_pretty(v@)).map_values(|l: Seq<char>| RowView::SecretLine(l)) + seq![
                    RowView::Blank,
                    RowView::Toggle(" Hide secret value"@),
                ]
            } else {
                seq![RowView::Muted(mask_text()), RowView::Blank, RowView::Toggle(" Reveal secret value"@)]
            },
            None => seq![RowView::Muted("(no value available)"@)],
        }
    })
}

/// The stages of a version as shown after its id: nothing, or
/// `  [A, B]`.
pub open spec fn stage_text(stages: Seq<String>) -> Seq<char> {
    if stages.len() == 0 {
        Seq::empty()
    } else {
        "  ["@ + joined(texts(stages), ", "@) + "]"@
    }
}

/// The version section, when there are versions: its count, then each
/// version id with its stages.
pub open spec fn version_rows(versions: Seq<(String, Vec<String>)>) -> Seq<RowView> {
    if versions.len() == 0 {
        Seq::empty()
    } else {
        seq![RowView::Blank, RowView::Heading("Versions ("@ + digits(versions.len()) + ")"@), RowView::Blank]
            + versions.map_values(|v: (String, Vec<String>)| RowView::Version(v.0@, stage_text(v.1@)))
    }
}

/// The rows of the detail screen of `d`, the value revealed or not.
pub open spec fn secret_rows(d: SecretDetail, show: bool) -> Seq<RowView> {
    info_rows(d) + rotation_rows(d) + value_rows(d, show) + version_rows(d.version_ids@)
}

/// Appends a row.
fn push_row(rows: &mut Vec<DetailRow>, row: DetailRow)
    ensures
        row_views(final(rows)@) == row_views(old(rows)@).push(row.view()),
{
    let ghost v = row.view();
    rows.push(row);
    assert(row_views(rows@) =~= row_views(old(rows)@).push(v));
}

/// Appends a field row when the value is there.
fn push_opt_field(rows: &mut Vec<DetailRow>, label: &str, value: &Option<String>, tone: Tone)
    ensures
        row_views(final(rows)@) == row_views(old(rows)@) + opt_field(label@, *value, tone),
{
    match value {
        Some(v) => {
            push_row(rows, DetailRow::Field(owned(label), owned(v.as_str()), tone));
            assert(row_views(rows@) =~= row_views(old(rows)@) + opt_field(label@, *value, tone));
        },
        None => {
            assert(row_views(rows@) =~= row_views(old(rows)@) + opt_field(label@, *value, tone));
        },
    }
}

/// Appends the rows of `info_rows`.
fn push_info_rows(rows: &mut Vec<DetailRow>, d: &SecretDetail)
    ensures
        row_views(final(rows)@) == row_views(old(rows)@) + info_rows(*d),
{
    push_row(rows, DetailRow::Blank);
    push_row(rows, DetailRow::Heading(owned("Secret Details")));
    push_row(rows, DetailRow::Blank);
    push_row(rows, DetailRow::Field(owned("Name"), owned(d.name.as_str()), Tone::Plain));
    push_row(rows, DetailRow::Field(owned("ARN"), owned(d.arn.as_str()), Tone::Link));
    if !d.description.as_str().is_empty() {
        push_row(rows, DetailRow::Field(owned("Description"), owned(d.description.as_str()), Tone::Plain));
    }
    push_opt_field(rows, "KMS Key ID", &d.kms_key_id, Tone::Plain);
    push_opt_field(rows, "Created", &d.created, Tone::Plain);
    push_opt_field(rows, "Last Changed", &d.last_changed, Tone::Plain);
    push_opt_field(rows, "Last Accessed", &d.last_accessed, Tone::Plain);
    push_opt_field(rows, "Deletion Date", &d.deleted_date, Tone::Warning);
    assert(row_views(rows@) =~= row_views(old(rows)@) + info_rows(*d));
}

/// Appends the rows of `rotation_rows`.
fn push_rotation_rows(rows: &mut Vec<DetailRow>, d: &SecretDetail)
    ensures
        row_views(final(rows)@) == row_views(old(rows)@) + rotation_rows(*d),
{
    push_row(rows, DetailRow::Blank);
    push_row(rows, DetailRow::Heading(owned("Rotation")));
    push_row(rows, DetailRow::Blank);
    if d.rotation_enabled {
        push_row(rows, DetailRow::Field(owned("Rotation"), owned("Enabled"), Tone::Good));
    } else {
        push_row(rows, DetailRow::Field(owned("Rotation"), owned("Disabled"), Tone::Plain));
    }
    match d.rotation_days {
        Some(n) => {
            let mut t = String::new();
            push_int(&mut t, n);
            push_str(&mut t, " days");
            assert(t@ =~= int_text(n as int) + " days"@);
            push_row(rows, DetailRow::Field(owned("Rotation Interval"), t, Tone::Plain));
        },
        None => {},
    }
    push_opt_field(rows, "Rotation Lambda", &d.rotation_lambda_arn, Tone::Plain);
    push_opt_field(rows, "Last Rotated", &d.last_rotated, Tone::Plain);
    assert(row_views(rows@) =~= row_views(old(rows)@) + rotation_rows(*d));
}

/// Appends the rows of `value_rows`.
fn push_value_rows(rows: &mut Vec<DetailRow>, d: &SecretDetail, show: bool)
    ensures
        row_views(final(rows)@) == row_views(old(rows)@) + value_rows(*d, show),
{
    push_row(rows, DetailRow::Blank);
    push_row(rows, DetailRow::Heading(owned("Secret Value")));
    push_row(rows, DetailRow::Blank);
    let ghost start = row_views(rows@);
    if d.secret_binary {
        push_row(rows, DetailRow::Muted(owned("(binary secret — preview not available)")));
    } else {
        match &d.secret_value {
            Some(v) => {
                if show {
                    let lines = secret_value_lines(v.as_str());
                    let ghost shown = value_lines_of(v@, json_pretty(v@));
                    let n = lines.len();
                    let mut i: usize = 0;
                    while i < n
                        invariant
                            i <= n,
                            n == lines@.len(),
                            texts(lines@) == shown,
                            row_views(rows@) == start + shown.take(i as int).map_values(
                                |l: Seq<char>| RowView::SecretLine(l),
                            ),
                        decreases n - i,
                    {
                        push_row(rows, DetailRow::SecretLine(owned(lines[i].as_str())));
                        assert(shown[i as int] == lines@[i as int]@);
                        assert(shown.take(i + 1).map_values(|l: Seq<char>| RowView::SecretLine(l)) =~= shown.take(
                            i as int,
                        ).map_values(|l: Seq<char>| RowView::SecretLine(l)).push(RowView::SecretLine(shown[i as int])));
                        i = i + 1;
                    }
                    assert(shown.take(n as int) =~= shown);
                    push_row(rows, DetailRow::Blank);
                    push_row(rows, DetailRow::Toggle(owned(" Hide secret value")));
                } else {
                    push_row(rows, DetailRow::Muted(owned("••••••••••••••••••••••••••••••••")));
                    push_row(rows, DetailRow::Blank);
                    push_row(rows, DetailRow::Toggle(owned(" Reveal secret value")));
                }
            },
            None => {
                push_row(rows, DetailRow::Muted(owned("(no value available)")));
            },
        }
    }
    assert(row_views(rows@) =~= row_views(old(rows)@) + value_rows(*d, show));
}

/// The stages of a version as shown after its id (see `stage_text`).
fn stages_text(stages: &Vec<String>) -> (r: String)
    ensures
        r@ == stage_text(stages@),
{
    if stages.len() == 0 {
        return String::new();
    }
    let mut t = owned("  [");
    let j = join_strings(stages, ", ");
    push_str(&mut t, j.as_str());
    push_str(&mut t, "]");
    assert(t@ =~= "  ["@ + joined(texts(stages@), ", "@) + "]"@);
    t
}

/// Appends the rows of `version_rows`.
fn push_version_rows(rows: &mut Vec<DetailRow>, versions: &Vec<(String, Vec<String>)>)
    ensures
        row_views(final(rows)@) == row_views(old(rows)@) + version_rows(versions@),
{
    let n = versions.len();
    if n == 0 {
        assert(row_views(rows@) =~= row_views(old(rows)@) + version_rows(versions@));
        return;
    }
    push_row(rows, DetailRow::Blank);
    let mut h = owned("Versions (");
    push_digits(&mut h, n as u64);
    push_str(&mut h, ")");
    assert(h@ =~= "Versions ("@ + digits(n as nat) + ")"@);
    push_row(rows, DetailRow::Heading(h));
    push_row(rows, DetailRow::Blank);
    let ghost start = row_views(rows@);
    let ghost each = versions@.map_values(|v: (String, Vec<String>)| RowView::Version(v.0@, stage_text(v.1@)));
    let mut i: usize = 0;
    while i < n
        invariant
            i <= n,
            n == versions@.len(),
            each == versions@.map_values(|v: (String, Vec<String>)| RowView::Version(v.0@, stage_text(v.1@))),
            row_views(rows@) == start + each.take(i as int),
        decreases n - i,
    {
        let id = owned(versions[i].0.as_str());
        let st = stages_text(&versions[i].1);
        push_row(rows, DetailRow::Version(id, st));
        assert(each.take(i + 1) =~= each.take(i as int).push(each[i as int]));
        i = i + 1;
    }
    assert(each.take(n as int) =~= each);
    assert(row_views(rows@) =~= row_views(old(rows)@) + version_rows(versions@));
}

/// The rows of the detail screen of a secret (see `secret_rows`): the
/// value shows only when `show_secret` is set.
pub fn secret_detail_rows(d: &SecretDetail, show_secret: bool) -> (r: Vec<DetailRow>)
    ensures
        row_views(r@) == secret_rows(*d, show_secret),
        !show_secret ==> forall|i: int| 0 <= i < r@.len() ==> !(r@[i] is SecretLine),
{
    let mut rows: Vec<DetailRow> = Vec::new();
    push_info_rows(&mut rows, d);
    push_rotation_rows(&mut rows, d);
    push_value_rows(&mut rows, d, show_secret);
    push_version_rows(&mut rows, &d.version_ids);
    assert(row_views(rows@) =~= secret_rows(*d, show_secret));
    proof {
        if !show_secret {
            assert forall|i: int| 0 <= i < rows@.len() implies !(rows@[i] is SecretLine) by {
                assert(row_views(rows@)[i] == rows@[i].view());
                let s = secret_rows(*d, false);
                let a = info_rows(*d) + rotation_rows(*d);
                assert(s =~= a + value_rows(*d, false) + version_rows(d.version_ids@));
                if i < a.len() {
                    assert(s[i] == a[i]);
                    if i < info_rows(*d).len() {
                        assert(a[i] == info_rows(*d)[i]);
                    } else {
                        assert(a[i] == rotation_rows(*d)[i - info_rows(*d).len()]);
                    }
                } else if i < a.len() + value_rows(*d, false).len() {
                    assert(s[i] == value_rows(*d, false)[i - a.len()]);
                } else {
                    assert(s[i] == version_rows(d.version_ids@)[i - a.len() - value_rows(*d, false).len()]);
                }
            }
        }
    }
    rows
}

/// Hiding the value hides it entirely: with the value not revealed the
/// rows are the same whatever the value is (only whether there is one
/// shows).
pub proof fn law_hidden_secret_rows_ignore_value(d: SecretDetail, other: Option<String>)
    requires
        (d.secret_value is Some) == (other is Some),
    ensures
        secret_rows(d, false) == secret_rows(SecretDetail { secret_value: other, ..d }, false),
{
    let e = SecretDetail { secret_value: other, ..d };
    assert(value_rows(d, false) =~= value_rows(e, false));
    assert(info_rows(d) =~= info_rows(e));
    assert(rotation_rows(d) =~= rotation_rows(e));
}

} // verus!
