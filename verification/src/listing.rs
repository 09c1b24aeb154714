//! What the exported list says: the meaning of its columns.
//!
//! Header and rows are written by different functions. That a row has under each heading
//! what the heading says, and that a decision can be told from its label, is proved here.
use vstd::prelude::*;

use crate::export::{
    decision_label,
    field_text,
    file_fields,
    files_rows,
    header_fields,
    is_special,
    missing_fields,
    needs_quotes,
    or_empty,
    pair_rows,
    ExportFile,
    ExportPair,
};
use crate::facets::decision_facets;
use crate::filepath::name_of;
use crate::text::{dec_int, opt_view};

verus! {

// ---------------------------------------------------------------------------
// Decisions
// ---------------------------------------------------------------------------

/// One of the decisions that the library writes.
pub open spec fn is_decision(d: Seq<char>) -> bool {
    d == "keep"@ || d == "reject"@ || d == "none"@
}

/// The decision that a label stands for.
pub open spec fn decision_named(label: Seq<char>) -> Seq<char> {
    if label == "保留"@ {
        "keep"@
    } else if label == "淘汰"@ {
        "reject"@
    } else {
        "none"@
    }
}

/// The decision can be told from its label, so that no two decisions have the same; and
/// the label is the one that the filter for the decision has.
pub proof fn law_labels_tell_decisions(d: Seq<char>, total: i64, none: i64, keep: i64, reject: i64)
    requires
        is_decision(d),
    ensures
        decision_named(decision_label(d)) == d,
        forall|other: Seq<char>|
            is_decision(other) && #[trigger] decision_label(other) == decision_label(d) ==> other
                == d,
        exists|k: int|
            0 < k < 4 && #[trigger] decision_facets(total, none, keep, reject)[k].key == d
                && decision_facets(total, none, keep, reject)[k].label == decision_label(d),
{
    reveal_strlit("keep");
    reveal_strlit("reject");
    reveal_strlit("none");
    reveal_strlit("保留");
    reveal_strlit("淘汰");
    reveal_strlit("未标记");
    assert("keep"@[0] != "none"@[0]);
    assert("reject"@[0] != "keep"@[0] && "reject"@[0] != "none"@[0]);
    assert("保留"@[0] != "淘汰"@[0]);
    assert("未标记"@[0] != "保留"@[0] && "未标记"@[0] != "淘汰"@[0]);
    let f = decision_facets(total, none, keep, reject);
    assert(f[1].key == "none"@ && f[2].key == "keep"@ && f[3].key == "reject"@);
    assert(decision_named(decision_label(d)) == d);
    assert forall|other: Seq<char>|
        is_decision(other) && #[trigger] decision_label(other) == decision_label(d) implies other
        == d by {
        assert(decision_named(decision_label(other)) == other);
    }
}

// ---------------------------------------------------------------------------
// Columns
// ---------------------------------------------------------------------------

/// The row has a value under a heading.
pub open spec fn has_under(row: Seq<Seq<char>>, heading: Seq<char>, value: Seq<char>) -> bool {
    exists|k: int|
        0 <= k < header_fields().len() && k < row.len() && #[trigger] header_fields()[k] == heading
            && row[k] == value
}

/// A row for a file has under each heading what the heading says.
pub proof fn law_columns_hold_what_they_say(p: ExportPair, f: ExportFile)
    ensures
        ({
            let row = file_fields(p, f);
            &&& row.len() == header_fields().len()
            &&& has_under(row, "决定"@, decision_label(p.decision@))
            &&& has_under(row, "星级"@, dec_int(p.stars as int))
            &&& has_under(row, "文件名"@, or_empty(name_of(f.path@)))
            &&& has_under(row, "拍摄时间"@, or_empty(opt_view(p.taken_at_text)))
            &&& has_under(row, "机身"@, or_empty(opt_view(p.camera_model)))
            &&& has_under(row, "镜头"@, or_empty(opt_view(p.lens)))
            &&& has_under(row, "焦距mm"@, or_empty(opt_view(p.focal_len)))
            &&& has_under(row, "光圈"@, or_empty(opt_view(p.aperture)))
            &&& has_under(row, "快门"@, or_empty(opt_view(p.shutter)))
            &&& p.iso matches Some(n) ==> has_under(row, "ISO"@, dec_int(n as int))
            &&& p.iso is None ==> has_under(row, "ISO"@, Seq::empty())
            &&& has_under(row, "完整路径"@, f.path@)
        }),
{
    let row = file_fields(p, f);
    let h = header_fields();
    assert(h[0] == "决定"@ && row[0] == decision_label(p.decision@));
    assert(h[1] == "星级"@ && row[1] == dec_int(p.stars as int));
    assert(h[2] == "文件名"@ && row[2] == or_empty(name_of(f.path@)));
    assert(h[3] == "拍摄时间"@ && row[3] == or_empty(opt_view(p.taken_at_text)));
    assert(h[4] == "机身"@ && row[4] == or_empty(opt_view(p.camera_model)));
    assert(h[5] == "镜头"@ && row[5] == or_empty(opt_view(p.lens)));
    assert(h[6] == "焦距mm"@ && row[6] == or_empty(opt_view(p.focal_len)));
    assert(h[7] == "光圈"@ && row[7] == or_empty(opt_view(p.aperture)));
    assert(h[8] == "快门"@ && row[8] == or_empty(opt_view(p.shutter)));
    assert(h[9] == "ISO"@);
    assert(h[10] == "完整路径"@ && row[10] == f.path@);
}

/// A shot whose files are gone is listed with its decision, its stars, its time and the
/// key that it is known by.
pub proof fn law_missing_shots_are_told(p: ExportPair)
    ensures
        ({
            let row = missing_fields(p);
            &&& row.len() == header_fields().len()
            &&& has_under(row, "决定"@, decision_label(p.decision@))
            &&& has_under(row, "星级"@, dec_int(p.stars as int))
            &&& has_under(row, "文件名"@, "(文件缺失)"@)
            &&& has_under(row, "拍摄时间"@, or_empty(opt_view(p.taken_at_text)))
            &&& has_under(row, "完整路径"@, p.pair_key@)
        }),
{
    let row = missing_fields(p);
    let h = header_fields();
    assert(h[0] == "决定"@ && row[0] == decision_label(p.decision@));
    assert(h[1] == "星级"@ && row[1] == dec_int(p.stars as int));
    assert(h[2] == "文件名"@ && row[2] == "(文件缺失)"@);
    assert(h[3] == "拍摄时间"@ && row[3] == or_empty(opt_view(p.taken_at_text)));
    assert(h[10] == "完整路径"@ && row[10] == p.pair_key@);
}

proof fn lemma_rows_of_files(p: ExportPair, files: Seq<ExportFile>, k: int)
    requires
        0 <= k < files_rows(p, files).len(),
    ensures
        files_rows(p, files).len() == files.len(),
        files_rows(p, files)[k] == file_fields(p, files[k]),
    decreases files.len(),
{
    if files.len() > 0 {
        let rest = files_rows(p, files.drop_last());
        if rest.len() > 0 {
            lemma_rows_of_files(p, files.drop_last(), if k < rest.len() {
                k
            } else {
                0
            });
        } else {
            lemma_no_rows(p, files.drop_last());
        }
    }
}

proof fn lemma_no_rows(p: ExportPair, files: Seq<ExportFile>)
    requires
        files_rows(p, files).len() == 0,
    ensures
        files.len() == 0,
{
}

/// Every row for a shot tells its decision: in the first column stands a label from which
/// the decision can be read back, whether the files of the shot are there or not.
pub proof fn law_rows_tell_the_decision(p: ExportPair, k: int)
    requires
        is_decision(p.decision@),
        0 <= k < pair_rows(p).len(),
    ensures
        header_fields()[0] == "决定"@,
        decision_named(pair_rows(p)[k][0]) == p.decision@,
{
    law_labels_tell_decisions(p.decision@, 0, 0, 0, 0);
    if p.files@.len() > 0 {
        lemma_rows_of_files(p, p.files@, k);
        assert(pair_rows(p)[k] == file_fields(p, p.files@[k]));
    } else {
        assert(pair_rows(p)[k] == missing_fields(p));
    }
}

/// A field with a comma, a quote or a line break of either kind stands in quotes, so that it
/// cannot be taken for two fields or two rows; any other field stands as it is.
pub proof fn law_fields_with_breaks_are_quoted(s: Seq<char>, i: int)
    ensures
        0 <= i < s.len() && (s[i] == ',' || s[i] == '"' || s[i] == '\n' || s[i] == '\r')
            ==> field_text(s).len() >= 2 && field_text(s)[0] == '"' && field_text(s).last() == '"',
        (forall|k: int|
            0 <= k < s.len() ==> #[trigger] s[k] != ',' && s[k] != '"' && s[k] != '\n' && s[k]
                != '\r') ==> field_text(s) == s,
{
    if 0 <= i < s.len() && is_special(s[i]) {
        assert(needs_quotes(s));
    }
}

} // verus!
