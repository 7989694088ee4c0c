//! The fixed choices of the library stated on their own terms: the operator
//! of a key condition, the extensions previewed as text, the levels found in
//! log lines, the order of the Secrets Manager list and the labels of a
//! secret's detail.
use vstd::prelude::*;
use crate::aws::dynamodb::key_condition_text;
use crate::ui::services::dynamodb::next_sk_condition;
use crate::aws::secrets::{SecretDetail, SecretInfo};
use crate::ui::services::secret_detail::{
    info_rows, opt_field, rotation_rows, secret_rows, stage_text, value_rows, version_rows, RowView, Tone,
};
use crate::ui::services::secrets::{json_pretty, value_lines_of};
use crate::order::{
    arranged, lemma_positions_where, lemma_positions_where_exact, lemma_stable_order_exists, precedes, stable_order, EntryVal,
    KeyVal,
};
use crate::ui::services::secrets::{SecretsManagerView, SortColumn};
use crate::ui::services::SortDir;
use crate::aws::s3::{after_last, is_text_object, text_extensions};
use crate::text::{digits, int_text, lemma_order_antisym, lowercase, seq_contains, seq_order, seq_starts_with, trimmed};
use crate::ui::services::log_message::{
    after_stamp, dated, dated_readable, first_at, level_line, log_levels, log_line, runtime_line, search_window, tab_line,
};

verus! {

/// The key condition of a query with a comparison on the sort key uses
/// that very comparison: `#pk = :pkval AND #sk <op> :skval`.
pub proof fn law_key_condition_operator(c: Seq<char>)
    requires
        c == ">"@ || c == ">="@ || c == "<"@ || c == "<="@ || c == "="@,
    ensures
        key_condition_text(Some(c)) == "#pk = :pkval AND #sk "@ + c + " :skval"@,
{
    reveal_strlit(">");
    reveal_strlit(">=");
    reveal_strlit("<");
    reveal_strlit("<=");
    reveal_strlit("=");
    reveal_strlit("begins_with");
    reveal_strlit("#pk = :pkval AND #sk ");
    reveal_strlit(" :skval");
    reveal_strlit("#pk = :pkval AND #sk > :skval");
    reveal_strlit("#pk = :pkval AND #sk >= :skval");
    reveal_strlit("#pk = :pkval AND #sk < :skval");
    reveal_strlit("#pk = :pkval AND #sk <= :skval");
    reveal_strlit("#pk = :pkval AND #sk = :skval");
    assert(key_condition_text(Some(c)) =~= "#pk = :pkval AND #sk "@ + c + " :skval"@);
}

/// Without a sort-key condition the key condition is on the partition key
/// alone; with `begins_with` it is a prefix test on the sort key.
pub proof fn law_key_condition_other(c: Seq<char>)
    ensures
        key_condition_text(None) == "#pk = :pkval"@,
        key_condition_text(Some("begins_with"@)) == "#pk = :pkval AND begins_with(#sk, :skval)"@,
{
}


/// The part after the last `.` of a key ending in `.` and an extension
/// without a `.` is that extension.
proof fn lemma_after_last_dot(k: Seq<char>, ext: Seq<char>)
    requires
        !ext.contains('.'),
    ensures
        after_last(k.push('.') + ext, '.') == ext,
    decreases ext.len(),
{
    if ext.len() == 0 {
        assert(k.push('.') + ext =~= k.push('.'));
    } else {
        let e0 = ext.drop_last();
        assert(!e0.contains('.')) by {
            if e0.contains('.') {
                let i = choose|i: int| 0 <= i < e0.len() && e0[i] == '.';
                assert(ext[i] == '.');
            }
        }
        lemma_after_last_dot(k, e0);
        assert((k.push('.') + ext).drop_last() =~= k.push('.') + e0);
        assert(ext.last() != '.') by {
            assert(ext[ext.len() - 1] == ext.last());
        }
        assert(e0.push(ext.last()) =~= ext);
    }
}

/// An object whose key ends in `.` and an extension whose lowercase form is
/// one of `txt`, `json`, `xml`, `yaml`, `yml`, `csv`, `log`, `md`, `html`,
/// `htm`, `css`, `js`, `ts`, `py`, `rb`, `rs`, `go`, `java`, `sh`, `bash`,
/// `zsh`, `toml`, `ini`, `cfg`, `conf`, `env`, `sql`, `graphql`, `tf`,
/// `hcl`, `jsx`, `tsx`, `vue` or `svelte` is text, whatever its content
/// type.
#[verifier::spinoff_prover]
pub proof fn law_text_extensions(k: Seq<char>, ext: Seq<char>, content_type: Seq<char>)
    requires
        !ext.contains('.'),
        lowercase(ext) == "txt"@ ||
            lowercase(ext) == "json"@ ||
            lowercase(ext) == "xml"@ ||
            lowercase(ext) == "yaml"@ ||
            lowercase(ext) == "yml"@ ||
            lowercase(ext) == "csv"@ ||
            lowercase(ext) == "log"@ ||
            lowercase(ext) == "md"@ ||
            lowercase(ext) == "html"@ ||
            lowercase(ext) == "htm"@ ||
            lowercase(ext) == "css"@ ||
            lowercase(ext) == "js"@ ||
            lowercase(ext) == "ts"@ ||
            lowercase(ext) == "py"@ ||
            lowercase(ext) == "rb"@ ||
            lowercase(ext) == "rs"@ ||
            lowercase(ext) == "go"@ ||
            lowercase(ext) == "java"@ ||
            lowercase(ext) == "sh"@ ||
            lowercase(ext) == "bash"@ ||
            lowercase(ext) == "zsh"@ ||
            lowercase(ext) == "toml"@ ||
            lowercase(ext) == "ini"@ ||
            lowercase(ext) == "cfg"@ ||
            lowercase(ext) == "conf"@ ||
            lowercase(ext) == "env"@ ||
            lowercase(ext) == "sql"@ ||
            lowercase(ext) == "graphql"@ ||
            lowercase(ext) == "tf"@ ||
            lowercase(ext) == "hcl"@ ||
            lowercase(ext) == "jsx"@ ||
            lowercase(ext) == "tsx"@ ||
            lowercase(ext) == "vue"@ ||
            lowercase(ext) == "svelte"@,
    ensures
        is_text_object(k.push('.') + ext, content_type),
{
    lemma_after_last_dot(k, ext);
    assert(text_extensions()[0] == "txt"@);
    assert(text_extensions()[1] == "json"@);
    assert(text_extensions()[2] == "xml"@);
    assert(text_extensions()[3] == "yaml"@);
    assert(text_extensions()[4] == "yml"@);
    assert(text_extensions()[5] == "csv"@);
    assert(text_extensions()[6] == "log"@);
    assert(text_extensions()[7] == "md"@);
    assert(text_extensions()[8] == "html"@);
    assert(text_extensions()[9] == "htm"@);
    assert(text_extensions()[10] == "css"@);
    assert(text_extensions()[11] == "js"@);
    assert(text_extensions()[12] == "ts"@);
    assert(text_extensions()[13] == "py"@);
    assert(text_extensions()[14] == "rb"@);
    assert(text_extensions()[15] == "rs"@);
    assert(text_extensions()[16] == "go"@);
    assert(text_extensions()[17] == "java"@);
    assert(text_extensions()[18] == "sh"@);
    assert(text_extensions()[19] == "bash"@);
    assert(text_extensions()[20] == "zsh"@);
    assert(text_extensions()[21] == "toml"@);
    assert(text_extensions()[22] == "ini"@);
    assert(text_extensions()[23] == "cfg"@);
    assert(text_extensions()[24] == "conf"@);
    assert(text_extensions()[25] == "env"@);
    assert(text_extensions()[26] == "sql"@);
    assert(text_extensions()[27] == "graphql"@);
    assert(text_extensions()[28] == "tf"@);
    assert(text_extensions()[29] == "hcl"@);
    assert(text_extensions()[30] == "jsx"@);
    assert(text_extensions()[31] == "tsx"@);
    assert(text_extensions()[32] == "vue"@);
    assert(text_extensions()[33] == "svelte"@);
}

/// An object whose content type starts with `text/` or names JSON, XML,
/// YAML or JavaScript is text, whatever its key.
pub proof fn law_text_content_types(key: Seq<char>, content_type: Seq<char>)
    requires
        seq_starts_with(content_type, "text/"@) || seq_contains(content_type, "json"@) || seq_contains(
            content_type,
            "xml"@,
        ) || seq_contains(content_type, "yaml"@) || seq_contains(content_type, "javascript"@),
    ensures
        is_text_object(key, content_type),
{
}


/// A dated log line (neither a runtime line nor tab-separated, and cut
/// between characters where it is read) shows the first of the levels
/// `INFO`, `DEBUG`, `WARN`, `ERROR`, `CRITICAL`, in that order, found in
/// the 50 bytes after its 24-byte timestamp: that level, a space and the
/// trimmed rest of the line after it; with none of them found, the line as
/// it is.
#[verifier::spinoff_prover]
pub proof fn law_log_levels(m: Seq<char>)
    requires
        !runtime_line(m),
        tab_line(m) is None,
        dated(m),
        dated_readable(m),
    ensures
        ({
            let a = after_stamp(m);
            let w = search_window(a);
            &&& first_at(w, "INFO"@, 0) >= 0 ==> log_line(m) == "INFO "@ + trimmed(a.skip(first_at(w, "INFO"@, 0) + 4))
            &&& first_at(w, "INFO"@, 0) < 0 && first_at(w, "DEBUG"@, 0) >= 0 ==> log_line(m) == "DEBUG "@ + trimmed(a.skip(first_at(w, "DEBUG"@, 0) + 5))
            &&& first_at(w, "INFO"@, 0) < 0 && first_at(w, "DEBUG"@, 0) < 0 && first_at(w, "WARN"@, 0) >= 0 ==> log_line(m) == "WARN "@ + trimmed(a.skip(first_at(w, "WARN"@, 0) + 4))
            &&& first_at(w, "INFO"@, 0) < 0 && first_at(w, "DEBUG"@, 0) < 0 && first_at(w, "WARN"@, 0) < 0 && first_at(w, "ERROR"@, 0) >= 0 ==> log_line(m) == "ERROR "@ + trimmed(a.skip(first_at(w, "ERROR"@, 0) + 5))
            &&& first_at(w, "INFO"@, 0) < 0 && first_at(w, "DEBUG"@, 0) < 0 && first_at(w, "WARN"@, 0) < 0 && first_at(w, "ERROR"@, 0) < 0 && first_at(w, "CRITICAL"@, 0) >= 0 ==> log_line(m) == "CRITICAL "@ + trimmed(a.skip(first_at(w, "CRITICAL"@, 0) + 8))
            &&& first_at(w, "INFO"@, 0) < 0 && first_at(w, "DEBUG"@, 0) < 0 && first_at(w, "WARN"@, 0) < 0 && first_at(w, "ERROR"@, 0) < 0 && first_at(w, "CRITICAL"@, 0) < 0 ==> log_line(m) == m
        }),
{
    reveal_strlit(" ");
    reveal_strlit("INFO");
    reveal_strlit("INFO ");
    reveal_strlit("DEBUG");
    reveal_strlit("DEBUG ");
    reveal_strlit("WARN");
    reveal_strlit("WARN ");
    reveal_strlit("ERROR");
    reveal_strlit("ERROR ");
    reveal_strlit("CRITICAL");
    reveal_strlit("CRITICAL ");
    assert(log_levels()[0] == "INFO"@);
    assert(log_levels()[1] == "DEBUG"@);
    assert(log_levels()[2] == "WARN"@);
    assert(log_levels()[3] == "ERROR"@);
    assert(log_levels()[4] == "CRITICAL"@);
    reveal_with_fuel(level_line, 6);
    let a = after_stamp(m);
    let w = search_window(a);
    assert(("INFO"@ + " "@) =~= "INFO "@);
    assert(("DEBUG"@ + " "@) =~= "DEBUG "@);
    assert(("WARN"@ + " "@) =~= "WARN "@);
    assert(("ERROR"@ + " "@) =~= "ERROR "@);
    assert(("CRITICAL"@ + " "@) =~= "CRITICAL "@);
}


/// The text a secret is compared by in a column, read from its fields: the
/// lowercase name, the last access time or the last change time.
pub open spec fn secret_column_text(s: SecretInfo, c: SortColumn) -> Seq<char> {
    match c {
        SortColumn::Name => lowercase(s.name@),
        SortColumn::LastAccessed => s.last_accessed@,
        SortColumn::LastChanged => s.last_changed@,
    }
}

/// The Secrets Manager list is in order of its sort column: ascending, each
/// secret's name (lowercase), last access or last change comes, as text,
/// no later than the next one's; descending, no earlier; secrets that tie
/// keep the service's order.
pub proof fn law_secrets_list_sorted(v: SecretsManagerView)
    requires
        v.secrets@.len() <= usize::MAX,
    ensures
        forall|p: int, q: int|
            0 <= p < q < v.shown().len() ==> {
                let a = secret_column_text(v.secrets@[#[trigger] v.shown()[p] as int], v.sort_column);
                let b = secret_column_text(v.secrets@[#[trigger] v.shown()[q] as int], v.sort_column);
                &&& v.sort_dir == SortDir::Asc ==> seq_order(a, b) <= 0
                &&& v.sort_dir == SortDir::Desc ==> seq_order(b, a) <= 0
                &&& seq_order(a, b) == 0 ==> v.shown()[p] < v.shown()[q]
            },
{
    let desc = v.sort_dir == SortDir::Desc;
    let e = v.entries();
    let pos = v.matching();
    lemma_positions_where(v.secrets@.len(), |i: int| v.keeps(i));
    lemma_stable_order_exists(e, desc);
    let o = stable_order(e, desc);
    assert forall|p: int, q: int| 0 <= p < q < v.shown().len() implies {
        let a = secret_column_text(v.secrets@[#[trigger] v.shown()[p] as int], v.sort_column);
        let b = secret_column_text(v.secrets@[#[trigger] v.shown()[q] as int], v.sort_column);
        &&& v.sort_dir == SortDir::Asc ==> seq_order(a, b) <= 0
        &&& v.sort_dir == SortDir::Desc ==> seq_order(b, a) <= 0
        &&& seq_order(a, b) == 0 ==> v.shown()[p] < v.shown()[q]
    } by {
        let i = o[p] as int;
        let j = o[q] as int;
        assert(precedes(e, desc, i, j));
        assert(v.shown()[p] == pos[i] && v.shown()[q] == pos[j]);
        let a = secret_column_text(v.secrets@[v.shown()[p] as int], v.sort_column);
        let b = secret_column_text(v.secrets@[v.shown()[q] as int], v.sort_column);
        assert(e[i].key == KeyVal::Text(a) && e[j].key == KeyVal::Text(b));
        assert(e[i].group == 0 && e[j].group == 0);
        lemma_order_antisym(a, b);
        if seq_order(a, b) == 0 {
            assert(i < j);
            lemma_positions_where_exact(v.secrets@.len(), |i: int| v.keeps(i));
        }
    }
}


/// The values of the field rows labelled `label`, in order.
pub open spec fn labelled(rows: Seq<RowView>, label: Seq<char>) -> Seq<Seq<char>>
    decreases rows.len(),
{
    if rows.len() == 0 {
        Seq::empty()
    } else {
        let rest = labelled(rows.drop_last(), label);
        match rows.last() {
            RowView::Field(l, v, _) => if l == label {
                rest.push(v)
            } else {
                rest
            },
            _ => rest,
        }
    }
}

/// The labelled values of two runs of rows, one after the other.
proof fn lemma_labelled_concat(a: Seq<RowView>, b: Seq<RowView>, label: Seq<char>)
    ensures
        labelled(a + b, label) == labelled(a, label) + labelled(b, label),
    decreases b.len(),
{
    if b.len() == 0 {
        assert(a + b =~= a);
        assert(labelled(a, label) + labelled(b, label) =~= labelled(a, label));
    } else {
        lemma_labelled_concat(a, b.drop_last(), label);
        assert((a + b).drop_last() =~= a + b.drop_last());
        assert((a + b).last() == b.last());
        assert(labelled(a, label) + labelled(b, label) =~= labelled(a, label) + labelled(b.drop_last(), label)
            + (labelled(b, label).skip(labelled(b.drop_last(), label).len() as int)));
    }
}

/// Rows none of which is a field row have no labelled values.
proof fn lemma_labelled_none(rows: Seq<RowView>, label: Seq<char>)
    requires
        forall|i: int| 0 <= i < rows.len() ==> !(#[trigger] rows[i] is Field),
    ensures
        labelled(rows, label) == Seq::<Seq<char>>::empty(),
    decreases rows.len(),
{
    if rows.len() > 0 {
        let r0 = rows.drop_last();
        assert forall|i: int| 0 <= i < r0.len() implies !(#[trigger] r0[i] is Field) by {
            assert(r0[i] == rows[i]);
        }
        lemma_labelled_none(r0, label);
        assert(!(rows[rows.len() - 1] is Field));
    }
}

/// The values under `l` of one optional field row labelled `label`.
pub open spec fn field_values(label: Seq<char>, value: Option<String>, l: Seq<char>) -> Seq<Seq<char>> {
    if label == l {
        match value {
            Some(v) => seq![v@],
            None => Seq::empty(),
        }
    } else {
        Seq::empty()
    }
}

/// The labelled values of an optional field row.
proof fn lemma_labelled_opt_field(label: Seq<char>, value: Option<String>, t: Tone, l: Seq<char>)
    ensures
        labelled(opt_field(label, value, t), l) == field_values(label, value, l),
{
    reveal_with_fuel(labelled, 2);
    if value is Some {
        assert(opt_field(label, value, t).drop_last() =~= Seq::<RowView>::empty());
    }
}

/// The labelled values of the detail section of a secret.
#[verifier::spinoff_prover]
proof fn lemma_info_labels(d: SecretDetail, l: Seq<char>)
    ensures
        labelled(info_rows(d), l) == field_values("Name"@, Some(d.name), l) + field_values("ARN"@, Some(d.arn), l)
            + (if d.description@.len() > 0 {
            field_values("Description"@, Some(d.description), l)
        } else {
            Seq::empty()
        }) + field_values("KMS Key ID"@, d.kms_key_id, l) + field_values("Created"@, d.created, l) + field_values(
            "Last Changed"@,
            d.last_changed,
            l,
        ) + field_values("Last Accessed"@, d.last_accessed, l) + field_values("Deletion Date"@, d.deleted_date, l),
{
    let i1 = seq![
        RowView::Blank,
        RowView::Heading("Secret Details"@),
        RowView::Blank,
        RowView::Field("Name"@, d.name@, Tone::Plain),
        RowView::Field("ARN"@, d.arn@, Tone::Link),
    ];
    let i2 = if d.description@.len() > 0 {
        seq![RowView::Field("Description"@, d.description@, Tone::Plain)]
    } else {
        Seq::empty()
    };
    let i3 = opt_field("KMS Key ID"@, d.kms_key_id, Tone::Plain);
    let i4 = opt_field("Created"@, d.created, Tone::Plain);
    let i5 = opt_field("Last Changed"@, d.last_changed, Tone::Plain);
    let i6 = opt_field("Last Accessed"@, d.last_accessed, Tone::Plain);
    let i7 = opt_field("Deletion Date"@, d.deleted_date, Tone::Warning);
    assert(info_rows(d) =~= i1 + i2 + i3 + i4 + i5 + i6 + i7);
    lemma_labelled_concat(i1 + i2 + i3 + i4 + i5 + i6, i7, l);
    lemma_labelled_concat(i1 + i2 + i3 + i4 + i5, i6, l);
    lemma_labelled_concat(i1 + i2 + i3 + i4, i5, l);
    lemma_labelled_concat(i1 + i2 + i3, i4, l);
    lemma_labelled_concat(i1 + i2, i3, l);
    lemma_labelled_concat(i1, i2, l);
    lemma_labelled_opt_field("KMS Key ID"@, d.kms_key_id, Tone::Plain, l);
    lemma_labelled_opt_field("Created"@, d.created, Tone::Plain, l);
    lemma_labelled_opt_field("Last Changed"@, d.last_changed, Tone::Plain, l);
    lemma_labelled_opt_field("Last Accessed"@, d.last_accessed, Tone::Plain, l);
    lemma_labelled_opt_field("Deletion Date"@, d.deleted_date, Tone::Warning, l);
    if d.description@.len() > 0 {
        lemma_labelled_opt_field("Description"@, Some(d.description), Tone::Plain, l);
        assert(i2 == opt_field("Description"@, Some(d.description), Tone::Plain));
    } else {
        assert(labelled(i2, l) == Seq::<Seq<char>>::empty());
    }
    reveal_with_fuel(labelled, 6);
    assert(labelled(i1, l) =~= field_values("Name"@, Some(d.name), l) + field_values("ARN"@, Some(d.arn), l));
}

/// The labelled values of the rotation section of a secret.
#[verifier::spinoff_prover]
proof fn lemma_rotation_labels(d: SecretDetail, l: Seq<char>)
    ensures
        labelled(rotation_rows(d), l) == (if "Rotation"@ == l {
            seq![if d.rotation_enabled { "Enabled"@ } else { "Disabled"@ }]
        } else {
            Seq::empty()
        }) + (match d.rotation_days {
            Some(n) => if "Rotation Interval"@ == l {
                seq![int_text(n as int) + " days"@]
            } else {
                Seq::empty()
            },
            None => Seq::empty(),
        }) + field_values("Rotation Lambda"@, d.rotation_lambda_arn, l) + field_values("Last Rotated"@, d.last_rotated, l),
{
    let r1 = seq![
        RowView::Blank,
        RowView::Heading("Rotation"@),
        RowView::Blank,
        if d.rotation_enabled {
            RowView::Field("Rotation"@, "Enabled"@, Tone::Good)
        } else {
            RowView::Field("Rotation"@, "Disabled"@, Tone::Plain)
        },
    ];
    let r2 = match d.rotation_days {
        Some(n) => seq![RowView::Field("Rotation Interval"@, int_text(n as int) + " days"@, Tone::Plain)],
        None => Seq::empty(),
    };
    let r3 = opt_field("Rotation Lambda"@, d.rotation_lambda_arn, Tone::Plain);
    let r4 = opt_field("Last Rotated"@, d.last_rotated, Tone::Plain);
    assert(rotation_rows(d) =~= r1 + r2 + r3 + r4);
    lemma_labelled_concat(r1 + r2 + r3, r4, l);
    lemma_labelled_concat(r1 + r2, r3, l);
    lemma_labelled_concat(r1, r2, l);
    lemma_labelled_opt_field("Rotation Lambda"@, d.rotation_lambda_arn, Tone::Plain, l);
    lemma_labelled_opt_field("Last Rotated"@, d.last_rotated, Tone::Plain, l);
    reveal_with_fuel(labelled, 5);
    assert(labelled(r1, l) =~= (if "Rotation"@ == l {
        seq![if d.rotation_enabled { "Enabled"@ } else { "Disabled"@ }]
    } else {
        Seq::empty()
    }));
    if d.rotation_days is Some {
        assert(r2.drop_last() =~= Seq::<RowView>::empty());
    }
}

/// The labelled values of a secret's detail rows come from its details and
/// rotation sections only.
proof fn lemma_secret_labelled(d: SecretDetail, show: bool, label: Seq<char>)
    ensures
        labelled(secret_rows(d, show), label) == labelled(info_rows(d), label) + labelled(rotation_rows(d), label),
{
    let v = value_rows(d, show);
    let ver = version_rows(d.version_ids@);
    assert(secret_rows(d, show) =~= ((info_rows(d) + rotation_rows(d)) + v) + ver);
    lemma_labelled_concat((info_rows(d) + rotation_rows(d)) + v, ver, label);
    lemma_labelled_concat(info_rows(d) + rotation_rows(d), v, label);
    lemma_labelled_concat(info_rows(d), rotation_rows(d), label);
    assert forall|i: int| 0 <= i < v.len() implies !(#[trigger] v[i] is Field) by {
        let head = seq![RowView::Blank, RowView::Heading("Secret Value"@), RowView::Blank];
        if i >= 3 {
            if !d.secret_binary && d.secret_value is Some && show {
                let lines = value_lines_of(d.secret_value->0@, json_pretty(d.secret_value->0@));
                let ls = lines.map_values(|l: Seq<char>| RowView::SecretLine(l));
                let rest = ls + seq![RowView::Blank, RowView::Toggle(" Hide secret value"@)];
                assert(v == head + rest);
                assert(v[i] == rest[i - 3]);
                if i - 3 < ls.len() {
                    assert(rest[i - 3] == ls[i - 3]);
                }
            }
        }
    }
    lemma_labelled_none(v, label);
    assert forall|i: int| 0 <= i < ver.len() implies !(#[trigger] ver[i] is Field) by {
        let vs = d.version_ids@;
        let each = vs.map_values(|x: (String, Vec<String>)| RowView::Version(x.0@, stage_text(x.1@)));
        if vs.len() > 0 {
            let head = seq![RowView::Blank, RowView::Heading("Versions ("@ + digits(vs.len()) + ")"@), RowView::Blank];
            assert(ver == head + each);
            if i >= 3 {
                assert(ver[i] == each[i - 3]);
            }
        }
    }
    lemma_labelled_none(ver, label);
    assert(labelled(secret_rows(d, show), label) =~= labelled(info_rows(d), label) + labelled(rotation_rows(d), label));
}

/// Each field of a secret's detail is shown under its own label: the name
/// under `Name`, the ARN under `ARN`, and each of the KMS key, creation,
/// last change, last access, deletion date, rotation function and last
/// rotation under its label exactly when it is set, with its value; the
/// description under `Description` when it is not empty; `Enabled` or
/// `Disabled` under `Rotation`; the interval in days under `Rotation
/// Interval` when it is set. No other row carries those labels.
#[verifier::spinoff_prover]
pub proof fn law_secret_detail_labels(d: SecretDetail, show: bool)
    ensures
        labelled(secret_rows(d, show), "Name"@) == seq![d.name@],
        labelled(secret_rows(d, show), "ARN"@) == seq![d.arn@],
        labelled(secret_rows(d, show), "Description"@) == (if d.description@.len() > 0 {
            seq![d.description@]
        } else {
            Seq::<Seq<char>>::empty()
        }),
        labelled(secret_rows(d, show), "Rotation"@) == seq![if d.rotation_enabled { "Enabled"@ } else { "Disabled"@ }],
        labelled(secret_rows(d, show), "Rotation Interval"@) == (match d.rotation_days {
            Some(n) => seq![int_text(n as int) + " days"@],
            None => Seq::<Seq<char>>::empty(),
        }),
        labelled(secret_rows(d, show), "KMS Key ID"@) == (match d.kms_key_id {
            Some(v) => seq![v@],
            None => Seq::<Seq<char>>::empty(),
        }),
        labelled(secret_rows(d, show), "Created"@) == (match d.created {
            Some(v) => seq![v@],
            None => Seq::<Seq<char>>::empty(),
        }),
        labelled(secret_rows(d, show), "Last Changed"@) == (match d.last_changed {
            Some(v) => seq![v@],
            None => Seq::<Seq<char>>::empty(),
        }),
        labelled(secret_rows(d, show), "Last Accessed"@) == (match d.last_accessed {
            Some(v) => seq![v@],
            None => Seq::<Seq<char>>::empty(),
        }),
        labelled(secret_rows(d, show), "Deletion Date"@) == (match d.deleted_date {
            Some(v) => seq![v@],
            None => Seq::<Seq<char>>::empty(),
        }),
        labelled(secret_rows(d, show), "Rotation Lambda"@) == (match d.rotation_lambda_arn {
            Some(v) => seq![v@],
            None => Seq::<Seq<char>>::empty(),
        }),
        labelled(secret_rows(d, show), "Last Rotated"@) == (match d.last_rotated {
            Some(v) => seq![v@],
            None => Seq::<Seq<char>>::empty(),
        }),
{
    reveal_strlit("Name");
    reveal_strlit("ARN");
    reveal_strlit("Description");
    reveal_strlit("KMS Key ID");
    reveal_strlit("Created");
    reveal_strlit("Last Changed");
    reveal_strlit("Last Accessed");
    reveal_strlit("Deletion Date");
    reveal_strlit("Rotation");
    reveal_strlit("Rotation Interval");
    reveal_strlit("Rotation Lambda");
    reveal_strlit("Last Rotated");
    assert("Name"@.len() == 4);
    assert("ARN"@.len() == 3);
    assert("Description"@.len() == 11);
    assert("KMS Key ID"@.len() == 10);
    assert("Created"@.len() == 7);
    assert("Last Changed"@.len() == 12);
    assert("Last Accessed"@.len() == 13);
    assert("Deletion Date"@.len() == 13);
    assert("Rotation"@.len() == 8);
    assert("Rotation Interval"@.len() == 17);
    assert("Rotation Lambda"@.len() == 15);
    assert("Last Rotated"@.len() == 12);
    assert("Last Changed"@[5] != "Last Rotated"@[5]);
    assert("Rotation Lambda"@[0] != "Last Accessed"@[0]);
    assert("Last Accessed"@[5] != "Deletion Date"@[5] && "Last Accessed"@[0] != "Deletion Date"@[0]);
    law_secret_detail_label(d, show, "Name"@);
    assert(labelled(secret_rows(d, show), "Name"@) =~= seq![d.name@]);
    law_secret_detail_label(d, show, "ARN"@);
    assert(labelled(secret_rows(d, show), "ARN"@) =~= seq![d.arn@]);
    law_secret_detail_label(d, show, "Description"@);
    assert(labelled(secret_rows(d, show), "Description"@) =~= (if d.description@.len() > 0 {
        seq![d.description@]
    } else {
        Seq::<Seq<char>>::empty()
    }));
    law_secret_detail_label(d, show, "Rotation"@);
    assert(labelled(secret_rows(d, show), "Rotation"@) =~= seq![if d.rotation_enabled { "Enabled"@ } else { "Disabled"@ }]);
    law_secret_detail_label(d, show, "Rotation Interval"@);
    assert(labelled(secret_rows(d, show), "Rotation Interval"@) =~= (match d.rotation_days {
        Some(n) => seq![int_text(n as int) + " days"@],
        None => Seq::<Seq<char>>::empty(),
    }));
    law_secret_detail_label(d, show, "KMS Key ID"@);
    law_secret_detail_label(d, show, "Created"@);
    law_secret_detail_label(d, show, "Last Changed"@);
    law_secret_detail_label(d, show, "Last Accessed"@);
    law_secret_detail_label(d, show, "Deletion Date"@);
    law_secret_detail_label(d, show, "Rotation Lambda"@);
    law_secret_detail_label(d, show, "Last Rotated"@);
}

/// The values under one label of a secret's detail rows.
#[verifier::spinoff_prover]
#[verifier::rlimit(40)]
proof fn law_secret_detail_label(d: SecretDetail, show: bool, l: Seq<char>)
    ensures
        labelled(secret_rows(d, show), l) == field_values("Name"@, Some(d.name), l) + field_values("ARN"@, Some(d.arn), l)
            + (if d.description@.len() > 0 {
            field_values("Description"@, Some(d.description), l)
        } else {
            Seq::empty()
        }) + field_values("KMS Key ID"@, d.kms_key_id, l) + field_values("Created"@, d.created, l) + field_values(
            "Last Changed"@,
            d.last_changed,
            l,
        ) + field_values("Last Accessed"@, d.last_accessed, l) + field_values("Deletion Date"@, d.deleted_date, l)
            + (if "Rotation"@ == l {
            seq![if d.rotation_enabled { "Enabled"@ } else { "Disabled"@ }]
        } else {
            Seq::empty()
        }) + (match d.rotation_days {
            Some(n) => if "Rotation Interval"@ == l {
                seq![int_text(n as int) + " days"@]
            } else {
                Seq::empty()
            },
            None => Seq::empty(),
        }) + field_values("Rotation Lambda"@, d.rotation_lambda_arn, l) + field_values("Last Rotated"@, d.last_rotated, l),
{
    lemma_secret_labelled(d, show, l);
    lemma_info_labels(d, l);
    lemma_rotation_labels(d, l);
}


/// Whether function `a` may come before `b` in the ascending order of
/// column `c`: by its lowercase name, runtime or modification time (as text), memory or timeout.
pub open spec fn lambda_no_later(a: crate::aws::lambda::FunctionInfo, b: crate::aws::lambda::FunctionInfo, c: crate::ui::services::lambda::SortColumn) -> bool {
    match c {
        crate::ui::services::lambda::SortColumn::Name => seq_order(lowercase(a.name@), lowercase(b.name@)) <= 0,
        crate::ui::services::lambda::SortColumn::Runtime => seq_order(a.runtime@, b.runtime@) <= 0,
        crate::ui::services::lambda::SortColumn::Modified => seq_order(a.last_modified@, b.last_modified@) <= 0,
        crate::ui::services::lambda::SortColumn::Memory => a.memory <= b.memory,
        crate::ui::services::lambda::SortColumn::Timeout => a.timeout <= b.timeout,
    }
}

/// The Lambda function list is in order of its sort column: ascending, each
/// function comes no later than the next one by its lowercase name, runtime or modification time (as text), memory or timeout; descending,
/// no earlier; functions that tie keep the service's order.
pub proof fn law_lambda_list_sorted(v: crate::ui::services::lambda::LambdaView)
    requires
        v.functions@.len() <= usize::MAX,
    ensures
        forall|p: int, q: int|
            0 <= p < q < v.shown().len() ==> {
                let a = v.functions@[#[trigger] v.shown()[p] as int];
                let b = v.functions@[#[trigger] v.shown()[q] as int];
                &&& !(v.sort_dir == SortDir::Desc) ==> lambda_no_later(a, b, v.sort_column)
                &&& v.sort_dir == SortDir::Desc ==> lambda_no_later(b, a, v.sort_column)
            },
{
    let desc = v.sort_dir == SortDir::Desc;
    let e = v.entries();
    let pos = v.matching();
    lemma_positions_where(v.functions@.len(), |i: int| v.keeps(i));
    lemma_stable_order_exists(e, desc);
    let o = stable_order(e, desc);
    assert forall|p: int, q: int| 0 <= p < q < v.shown().len() implies {
        let a = v.functions@[#[trigger] v.shown()[p] as int];
        let b = v.functions@[#[trigger] v.shown()[q] as int];
        &&& !(v.sort_dir == SortDir::Desc) ==> lambda_no_later(a, b, v.sort_column)
        &&& v.sort_dir == SortDir::Desc ==> lambda_no_later(b, a, v.sort_column)
    } by {
        let i = o[p] as int;
        let j = o[q] as int;
        assert(precedes(e, desc, i, j));
        assert(v.shown()[p] == pos[i] && v.shown()[q] == pos[j]);
    }
}

/// Whether group `a` may come before `b` in the ascending order of
/// column `c`: by its lowercase name, stored bytes, retention (none before any) or creation time (as text).
pub open spec fn cloudwatch_group_no_later(a: crate::aws::cloudwatch::LogGroupInfo, b: crate::aws::cloudwatch::LogGroupInfo, c: crate::ui::services::cloudwatch::GroupSortCol) -> bool {
    match c {
        crate::ui::services::cloudwatch::GroupSortCol::Name => seq_order(lowercase(a.name@), lowercase(b.name@)) <= 0,
        crate::ui::services::cloudwatch::GroupSortCol::StoredBytes => a.stored_bytes <= b.stored_bytes,
        crate::ui::services::cloudwatch::GroupSortCol::Retention => match (a.retention_days, b.retention_days) {
            (None, _) => true,
            (Some(_), None) => false,
            (Some(x), Some(y)) => x <= y,
        },
        crate::ui::services::cloudwatch::GroupSortCol::Created => seq_order(a.created@, b.created@) <= 0,
    }
}

/// The CloudWatch log group list is in order of its sort column: ascending, each
/// group comes no later than the next one by its lowercase name, stored bytes, retention (none before any) or creation time (as text); descending,
/// no earlier; groups that tie keep the service's order.
pub proof fn law_cloudwatch_group_list_sorted(v: crate::ui::services::cloudwatch::CloudWatchView)
    requires
        v.groups@.len() <= usize::MAX,
    ensures
        forall|p: int, q: int|
            0 <= p < q < v.shown_groups().len() ==> {
                let a = v.groups@[#[trigger] v.shown_groups()[p] as int];
                let b = v.groups@[#[trigger] v.shown_groups()[q] as int];
                &&& !(v.group_sort_dir == SortDir::Desc) ==> cloudwatch_group_no_later(a, b, v.group_sort_col)
                &&& v.group_sort_dir == SortDir::Desc ==> cloudwatch_group_no_later(b, a, v.group_sort_col)
            },
{
    let desc = v.group_sort_dir == SortDir::Desc;
    let e = v.matching_groups().map_values(|i: usize| EntryVal { group: 0, key: v.group_key(i as int) });
    let pos = v.matching_groups();
    lemma_positions_where(v.groups@.len(), |i: int| v.keeps_group(i));
    lemma_stable_order_exists(e, desc);
    let o = stable_order(e, desc);
    assert forall|p: int, q: int| 0 <= p < q < v.shown_groups().len() implies {
        let a = v.groups@[#[trigger] v.shown_groups()[p] as int];
        let b = v.groups@[#[trigger] v.shown_groups()[q] as int];
        &&& !(v.group_sort_dir == SortDir::Desc) ==> cloudwatch_group_no_later(a, b, v.group_sort_col)
        &&& v.group_sort_dir == SortDir::Desc ==> cloudwatch_group_no_later(b, a, v.group_sort_col)
    } by {
        let i = o[p] as int;
        let j = o[q] as int;
        assert(precedes(e, desc, i, j));
        assert(v.shown_groups()[p] == pos[i] && v.shown_groups()[q] == pos[j]);
    }
}

/// Whether stream `a` may come before `b` in the ascending order of
/// column `c`: by its lowercase name, last event time (none before any) or creation time (as text).
pub open spec fn cloudwatch_stream_no_later(a: crate::aws::cloudwatch::LogStreamInfo, b: crate::aws::cloudwatch::LogStreamInfo, c: crate::ui::services::cloudwatch::StreamSortCol) -> bool {
    match c {
        crate::ui::services::cloudwatch::StreamSortCol::Name => seq_order(lowercase(a.name@), lowercase(b.name@)) <= 0,
        crate::ui::services::cloudwatch::StreamSortCol::LastEvent => match (a.last_event, b.last_event) {
            (None, _) => true,
            (Some(_), None) => false,
            (Some(x), Some(y)) => seq_order(x@, y@) <= 0,
        },
        crate::ui::services::cloudwatch::StreamSortCol::Created => seq_order(a.created@, b.created@) <= 0,
    }
}

/// The CloudWatch log stream list is in order of its sort column: ascending, each
/// stream comes no later than the next one by its lowercase name, last event time (none before any) or creation time (as text); descending,
/// no earlier; streams that tie keep the service's order.
pub proof fn law_cloudwatch_stream_list_sorted(v: crate::ui::services::cloudwatch::CloudWatchView)
    requires
        v.streams@.len() <= usize::MAX,
    ensures
        forall|p: int, q: int|
            0 <= p < q < v.shown_streams().len() ==> {
                let a = v.streams@[#[trigger] v.shown_streams()[p] as int];
                let b = v.streams@[#[trigger] v.shown_streams()[q] as int];
                &&& !(v.stream_sort_dir == SortDir::Desc) ==> cloudwatch_stream_no_later(a, b, v.stream_sort_col)
                &&& v.stream_sort_dir == SortDir::Desc ==> cloudwatch_stream_no_later(b, a, v.stream_sort_col)
            },
{
    let desc = v.stream_sort_dir == SortDir::Desc;
    let e = v.matching_streams().map_values(|i: usize| EntryVal { group: 0, key: v.stream_key(i as int) });
    let pos = v.matching_streams();
    lemma_positions_where(v.streams@.len(), |i: int| v.keeps_stream(i));
    lemma_stable_order_exists(e, desc);
    let o = stable_order(e, desc);
    assert forall|p: int, q: int| 0 <= p < q < v.shown_streams().len() implies {
        let a = v.streams@[#[trigger] v.shown_streams()[p] as int];
        let b = v.streams@[#[trigger] v.shown_streams()[q] as int];
        &&& !(v.stream_sort_dir == SortDir::Desc) ==> cloudwatch_stream_no_later(a, b, v.stream_sort_col)
        &&& v.stream_sort_dir == SortDir::Desc ==> cloudwatch_stream_no_later(b, a, v.stream_sort_col)
    } by {
        let i = o[p] as int;
        let j = o[q] as int;
        assert(precedes(e, desc, i, j));
        assert(v.shown_streams()[p] == pos[i] && v.shown_streams()[q] == pos[j]);
    }
}


/// Whether table `a` may come before `b` in the ascending order of column
/// `c`: by lowercase name (0), status (1), item count (2) or size (3).
pub open spec fn dynamodb_table_no_later(a: crate::aws::dynamodb::TableInfo, b: crate::aws::dynamodb::TableInfo, c: usize) -> bool {
    if c == 0 {
        seq_order(lowercase(a.name@), lowercase(b.name@)) <= 0
    } else if c == 1 {
        seq_order(a.status@, b.status@) <= 0
    } else if c == 2 {
        a.item_count <= b.item_count
    } else if c == 3 {
        a.size_bytes <= b.size_bytes
    } else {
        true
    }
}

/// The DynamoDB table list, sorted on a column, is in that column's order:
/// ascending, each table comes no later than the next by lowercase name,
/// status, item count or size; descending, no earlier. Unsorted, it keeps
/// the service's order.
pub proof fn law_dynamodb_table_list_sorted(v: crate::ui::services::dynamodb::DynamoDbView)
    requires
        v.tables@.len() <= usize::MAX,
    ensures
        forall|p: int, q: int|
            0 <= p < q < v.shown_tables().len() ==> {
                let a = v.tables@[#[trigger] v.shown_tables()[p] as int];
                let b = v.tables@[#[trigger] v.shown_tables()[q] as int];
                &&& v.sort_col_idx is None ==> v.shown_tables()[p] < v.shown_tables()[q]
                &&& (v.sort_col_idx is Some && v.sort_ascending) ==> dynamodb_table_no_later(a, b, v.sort_col_idx->0)
                &&& (v.sort_col_idx is Some && !v.sort_ascending) ==> dynamodb_table_no_later(b, a, v.sort_col_idx->0)
            },
{
    let desc = !v.sort_ascending;
    let e = v.matching_tables().map_values(|i: usize| EntryVal { group: 0, key: v.table_key(i as int) });
    let pos = v.matching_tables();
    lemma_positions_where(v.tables@.len(), |i: int| v.keeps_table(i));
    lemma_positions_where_exact(v.tables@.len(), |i: int| v.keeps_table(i));
    lemma_stable_order_exists(e, desc);
    let o = stable_order(e, desc);
    assert forall|p: int, q: int| 0 <= p < q < v.shown_tables().len() implies {
        let a = v.tables@[#[trigger] v.shown_tables()[p] as int];
        let b = v.tables@[#[trigger] v.shown_tables()[q] as int];
        &&& v.sort_col_idx is None ==> v.shown_tables()[p] < v.shown_tables()[q]
        &&& (v.sort_col_idx is Some && v.sort_ascending) ==> dynamodb_table_no_later(a, b, v.sort_col_idx->0)
        &&& (v.sort_col_idx is Some && !v.sort_ascending) ==> dynamodb_table_no_later(b, a, v.sort_col_idx->0)
    } by {
        if v.sort_col_idx is Some {
            let i = o[p] as int;
            let j = o[q] as int;
            assert(precedes(e, desc, i, j));
            assert(v.shown_tables()[p] == pos[i] && v.shown_tables()[q] == pos[j]);
        }
    }
}

/// Whether object `a` may come before `b` in the ascending order of column
/// `c`: by lowercase display name, size (0 when unknown) or modification
/// time (none before any).
pub open spec fn s3_object_no_later(a: crate::aws::s3::ObjectInfo, b: crate::aws::s3::ObjectInfo, c: crate::ui::services::s3::SortColumn) -> bool {
    match c {
        crate::ui::services::s3::SortColumn::Name => seq_order(lowercase(a.display_name@), lowercase(b.display_name@)) <= 0,
        crate::ui::services::s3::SortColumn::Size => (match a.size {
            Some(s) => s as int,
            None => 0,
        }) <= (match b.size {
            Some(s) => s as int,
            None => 0,
        }),
        crate::ui::services::s3::SortColumn::Modified => match (a.last_modified, b.last_modified) {
            (None, _) => true,
            (Some(_), None) => false,
            (Some(x), Some(y)) => seq_order(x@, y@) <= 0,
        },
    }
}

/// The S3 object list shows the folders first, then the objects; within
/// each, ascending, an entry comes no later than the next by lowercase name,
/// size or modification time; descending, no earlier.
pub proof fn law_s3_object_list_sorted(v: crate::ui::services::s3::S3View)
    requires
        v.objects@.len() <= usize::MAX,
    ensures
        forall|p: int, q: int|
            0 <= p < q < v.shown_objects().len() ==> {
                let a = v.objects@[#[trigger] v.shown_objects()[p] as int];
                let b = v.objects@[#[trigger] v.shown_objects()[q] as int];
                &&& (a.is_prefix || !b.is_prefix)
                &&& (a.is_prefix == b.is_prefix && v.sort_dir == SortDir::Asc) ==> s3_object_no_later(a, b, v.sort_column)
                &&& (a.is_prefix == b.is_prefix && v.sort_dir == SortDir::Desc) ==> s3_object_no_later(b, a, v.sort_column)
            },
{
    let desc = v.sort_dir == SortDir::Desc;
    let e = v.object_entries();
    let pos = v.matching_objects();
    lemma_positions_where(v.objects@.len(), |i: int| v.keeps_object(i));
    lemma_stable_order_exists(e, desc);
    let o = stable_order(e, desc);
    assert forall|p: int, q: int| 0 <= p < q < v.shown_objects().len() implies {
        let a = v.objects@[#[trigger] v.shown_objects()[p] as int];
        let b = v.objects@[#[trigger] v.shown_objects()[q] as int];
        &&& (a.is_prefix || !b.is_prefix)
        &&& (a.is_prefix == b.is_prefix && v.sort_dir == SortDir::Asc) ==> s3_object_no_later(a, b, v.sort_column)
        &&& (a.is_prefix == b.is_prefix && v.sort_dir == SortDir::Desc) ==> s3_object_no_later(b, a, v.sort_column)
    } by {
        let i = o[p] as int;
        let j = o[q] as int;
        assert(precedes(e, desc, i, j));
        assert(v.shown_objects()[p] == pos[i] && v.shown_objects()[q] == pos[j]);
    }
}


/// The sort-key condition after `k` presses of the condition key, from `c`.
pub open spec fn sk_after(c: Seq<char>, k: nat) -> Seq<char>
    decreases k,
{
    if k == 0 {
        c
    } else {
        next_sk_condition(sk_after(c, (k - 1) as nat))
    }
}

/// The condition key of the query builder cycles through six different
/// sort-key conditions and is back at `=` after six presses; whichever it
/// shows, the query's key condition applies that very condition to the
/// sort key (a prefix test for `begins_with`).
pub proof fn law_sk_condition_cycle(c: Seq<char>)
    ensures
        sk_after("="@, 6) == "="@,
        forall|i: nat, j: nat| i < j < 6 ==> sk_after("="@, i) != sk_after("="@, j),
        ({
            let n = next_sk_condition(c);
            key_condition_text(Some(n)) == if n == "begins_with"@ {
                "#pk = :pkval AND begins_with(#sk, :skval)"@
            } else {
                "#pk = :pkval AND #sk "@ + n + " :skval"@
            }
        }),
{
    reveal_strlit(">");
    reveal_strlit(">=");
    reveal_strlit("<");
    reveal_strlit("<=");
    reveal_strlit("=");
    reveal_strlit("begins_with");
    reveal_with_fuel(sk_after, 7);
    assert("="@.len() == 1 && ">"@.len() == 1 && "<"@.len() == 1);
    assert(">="@.len() == 2 && "<="@.len() == 2 && "begins_with"@.len() == 11);
    assert("="@[0] != ">"@[0] && "="@[0] != "<"@[0] && ">"@[0] != "<"@[0]);
    assert(">="@[0] != "<="@[0]);
    assert(next_sk_condition("="@) == "begins_with"@);
    assert(sk_after("="@, 1) == "begins_with"@);
    assert(sk_after("="@, 2) == ">"@);
    assert(sk_after("="@, 3) == "<"@);
    assert(sk_after("="@, 4) == ">="@);
    assert(sk_after("="@, 5) == "<="@);
    assert(sk_after("="@, 6) == "="@);
    let n = next_sk_condition(c);
    if n != "begins_with"@ {
        law_key_condition_operator(n);
    }
}


/// Whether bucket `a` may come before `b` in the ascending order of column
/// `c`: by name, else by creation time (none before any).
pub open spec fn s3_bucket_no_later(a: crate::aws::s3::BucketInfo, b: crate::aws::s3::BucketInfo, c: crate::ui::services::s3::SortColumn) -> bool {
    match c {
        crate::ui::services::s3::SortColumn::Name => seq_order(a.name@, b.name@) <= 0,
        _ => match (a.created, b.created) {
            (None, _) => true,
            (Some(_), None) => false,
            (Some(x), Some(y)) => seq_order(x@, y@) <= 0,
        },
    }
}

/// The S3 bucket list is in order of its sort column: ascending, each
/// bucket comes no later than the next by name or creation time;
/// descending, no earlier.
pub proof fn law_s3_bucket_list_sorted(v: crate::ui::services::s3::S3View)
    requires
        v.buckets@.len() <= usize::MAX,
    ensures
        forall|p: int, q: int|
            0 <= p < q < v.shown_buckets().len() ==> {
                let a = v.buckets@[#[trigger] v.shown_buckets()[p] as int];
                let b = v.buckets@[#[trigger] v.shown_buckets()[q] as int];
                &&& v.sort_dir == SortDir::Asc ==> s3_bucket_no_later(a, b, v.sort_column)
                &&& v.sort_dir == SortDir::Desc ==> s3_bucket_no_later(b, a, v.sort_column)
            },
{
    let e = v.bucket_entries();
    let pos = v.matching_buckets();
    lemma_positions_where(v.buckets@.len(), |i: int| v.keeps_bucket(i));
    lemma_stable_order_exists(e, false);
    let o = stable_order(e, false);
    let asc = arranged(pos, o);
    assert forall|p: int, q: int| 0 <= p < q < v.shown_buckets().len() implies {
        let a = v.buckets@[#[trigger] v.shown_buckets()[p] as int];
        let b = v.buckets@[#[trigger] v.shown_buckets()[q] as int];
        &&& v.sort_dir == SortDir::Asc ==> s3_bucket_no_later(a, b, v.sort_column)
        &&& v.sort_dir == SortDir::Desc ==> s3_bucket_no_later(b, a, v.sort_column)
    } by {
        let n = asc.len();
        if v.sort_dir == SortDir::Desc {
            let i = o[n - 1 - q] as int;
            let j = o[n - 1 - p] as int;
            assert(precedes(e, false, i, j));
            assert(v.shown_buckets()[p] == asc[n - 1 - p]);
            assert(v.shown_buckets()[q] == asc[n - 1 - q]);
            assert(asc[n - 1 - p] == pos[j] && asc[n - 1 - q] == pos[i]);
        } else {
            let i = o[p] as int;
            let j = o[q] as int;
            assert(precedes(e, false, i, j));
            assert(v.shown_buckets()[p] == pos[i] && v.shown_buckets()[q] == pos[j]);
        }
    }
}

} // verus!
