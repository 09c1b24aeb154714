//! What the choices beside the filters say: which label stands for which key.
use vstd::prelude::*;

use crate::facets::{
    camera_facets,
    color_facets,
    day_facets,
    decision_facets,
    focal_facets,
    iso_facets,
    named_facets,
    pair_state_facets,
    quality_facets,
    star_facets,
    CameraCount,
    FourCounts,
    NamedCount,
    StarCount,
};
use crate::filter::{focal_bounds, iso_bounds, lemma_range_names_differ, Upper, NONE_KEY};
use crate::text::dec;

verus! {

/// The label for a number of stars shows so many stars, and the key is the number.
pub proof fn law_star_labels_show_the_stars(rows: Seq<StarCount>, k: int)
    requires
        0 <= k <= 5,
    ensures
        star_facets(rows).len() == 6,
        star_facets(rows)[k].key == dec(k as nat),
        k > 0 ==> star_facets(rows)[k].label == Seq::new(k as nat, |i: int| '★'),
        star_facets(rows)[0].label == "未打星"@,
{
    reveal_strlit("0");
    reveal_strlit("1");
    reveal_strlit("2");
    reveal_strlit("3");
    reveal_strlit("4");
    reveal_strlit("5");
    reveal_strlit("★");
    reveal_strlit("★★");
    reveal_strlit("★★★");
    reveal_strlit("★★★★");
    reveal_strlit("★★★★★");
    assert(star_facets(rows)[k].key =~= dec(k as nat));
    if k > 0 {
        assert(star_facets(rows)[k].label =~= Seq::new(k as nat, |i: int| '★'));
    }
}

/// A label for a range with both ends, with the upper end only, and with the lower end
/// only.
pub open spec fn range_label(lo: int, hi: int) -> Seq<char> {
    dec(lo as nat) + "–"@ + dec(hi as nat)
}

pub open spec fn below_label(hi: int) -> Seq<char> {
    dec(hi as nat) + " 以下"@
}

pub open spec fn above_label(lo: int) -> Seq<char> {
    dec(lo as nat) + " 以上"@
}

proof fn lemma_numbers()
    ensures
        "24"@ == dec(24) && "70"@ == dec(70) && "200"@ == dec(200),
        "400"@ == dec(400) && "1600"@ == dec(1600) && "6400"@ == dec(6400),
{
    reveal_strlit("24");
    reveal_strlit("70");
    reveal_strlit("200");
    reveal_strlit("400");
    reveal_strlit("1600");
    reveal_strlit("6400");
    reveal_with_fuel(dec, 5);
    assert("24"@ =~= dec(24));
    assert("70"@ =~= dec(70));
    assert("200"@ =~= dec(200));
    assert("400"@ =~= dec(400));
    assert("1600"@ =~= dec(1600));
    assert("6400"@ =~= dec(6400));
}

/// The label for a range of focal lengths names the bounds that the filter for its key
/// has.
pub proof fn law_focal_labels_name_the_bounds(n: FourCounts, k: int)
    requires
        0 <= k < 4,
    ensures
        ({
            let f = focal_facets(Some(n))[k];
            &&& focal_facets(Some(n)).len() == 4
            &&& focal_bounds(f.key) is Some
            &&& match focal_bounds(f.key)->Some_0 {
                (lo, Upper::Below(hi)) => f.label == if lo == 0 {
                    below_label(hi as int)
                } else {
                    range_label(lo as int, hi as int)
                },
                (lo, Upper::Open) => f.label == above_label(lo as int),
            }
        }),
{
    lemma_range_names_differ();
    lemma_numbers();
    reveal_strlit("24");
    reveal_strlit("70");
    reveal_strlit("200");
    reveal_strlit("–");
    reveal_strlit(" 以下");
    reveal_strlit(" 以上");
    reveal_strlit("24 以下");
    reveal_strlit("24–70");
    reveal_strlit("70–200");
    reveal_strlit("200 以上");
    assert("24 以下"@ =~= "24"@ + " 以下"@);
    assert("24–70"@ =~= "24"@ + "–"@ + "70"@);
    assert("70–200"@ =~= "70"@ + "–"@ + "200"@);
    assert("200 以上"@ =~= "200"@ + " 以上"@);
}

/// The label for a range of sensitivities names the bounds that the filter for its key
/// has.
pub proof fn law_iso_labels_name_the_bounds(n: FourCounts, k: int)
    requires
        0 <= k < 4,
    ensures
        ({
            let f = iso_facets(Some(n))[k];
            &&& iso_facets(Some(n)).len() == 4
            &&& iso_bounds(f.key) is Some
            &&& ({
                let (lo, hi) = iso_bounds(f.key)->Some_0;
                f.label == if lo == 0 {
                    below_label(hi as int)
                } else if hi == i64::MAX {
                    above_label(lo as int)
                } else {
                    range_label(lo as int, hi as int)
                }
            })
        }),
{
    lemma_range_names_differ();
    lemma_numbers();
    reveal_strlit("400");
    reveal_strlit("1600");
    reveal_strlit("6400");
    reveal_strlit("–");
    reveal_strlit(" 以下");
    reveal_strlit(" 以上");
    reveal_strlit("400 以下");
    reveal_strlit("400–1600");
    reveal_strlit("1600–6400");
    reveal_strlit("6400 以上");
    assert("400 以下"@ =~= "400"@ + " 以下"@);
    assert("400–1600"@ =~= "400"@ + "–"@ + "1600"@);
    assert("1600–6400"@ =~= "1600"@ + "–"@ + "6400"@);
    assert("6400 以上"@ =~= "6400"@ + " 以上"@);
}

/// The key that a label of a flaw stands for.
pub open spec fn flaw_named(label: Seq<char>) -> Seq<char> {
    if label == "可能糊了"@ {
        "blur"@
    } else if label == "高光溢出"@ {
        "over"@
    } else if label == "暗部死黑"@ {
        "under"@
    } else {
        "blink"@
    }
}

/// The key that a label of a colour stands for.
pub open spec fn color_named(label: Seq<char>) -> Seq<char> {
    if label == "红"@ {
        "red"@
    } else if label == "黄"@ {
        "yellow"@
    } else if label == "绿"@ {
        "green"@
    } else if label == "蓝"@ {
        "blue"@
    } else {
        "purple"@
    }
}

/// The key that a label for the files of a pair stands for.
pub open spec fn pair_named(label: Seq<char>) -> Seq<char> {
    if label == "全部"@ {
        "all"@
    } else if label == "NEF + JPG"@ {
        "both"@
    } else if label == "仅 NEF"@ {
        "rawOnly"@
    } else if label == "仅 JPG"@ {
        "jpgOnly"@
    } else {
        "orphan"@
    }
}

/// A flaw can be told from its label: overexposed is what the highlights are lost in,
/// underexposed what the shadows are.
pub proof fn law_flaw_labels_tell_the_flaw(q: FourCounts, k: int)
    requires
        0 <= k < quality_facets(q).len(),
    ensures
        quality_facets(q).len() == 4,
        flaw_named(quality_facets(q)[k].label) == quality_facets(q)[k].key,
{
    reveal_strlit("可能糊了");
    reveal_strlit("高光溢出");
    reveal_strlit("暗部死黑");
    reveal_strlit("疑似闭眼");
    assert("可能糊了"@[0] != "高光溢出"@[0] && "可能糊了"@[0] != "暗部死黑"@[0]);
    assert("可能糊了"@[0] != "疑似闭眼"@[0] && "高光溢出"@[0] != "暗部死黑"@[0]);
    assert("高光溢出"@[0] != "疑似闭眼"@[0] && "暗部死黑"@[0] != "疑似闭眼"@[0]);
}

/// A colour can be told from its label.
pub proof fn law_color_labels_tell_the_color(rows: Seq<NamedCount>, k: int)
    requires
        0 <= k < color_facets(rows).len(),
    ensures
        color_facets(rows).len() == 5,
        color_named(color_facets(rows)[k].label) == color_facets(rows)[k].key,
{
    reveal_strlit("红");
    reveal_strlit("黄");
    reveal_strlit("绿");
    reveal_strlit("蓝");
    reveal_strlit("紫");
    assert("红"@[0] != "黄"@[0] && "红"@[0] != "绿"@[0] && "红"@[0] != "蓝"@[0] && "红"@[0]
        != "紫"@[0]);
    assert("黄"@[0] != "绿"@[0] && "黄"@[0] != "蓝"@[0] && "黄"@[0] != "紫"@[0]);
    assert("绿"@[0] != "蓝"@[0] && "绿"@[0] != "紫"@[0] && "蓝"@[0] != "紫"@[0]);
}

/// Which files a pair has can be told from the label, and the count beside it is that of
/// such pairs.
pub proof fn law_pair_labels_tell_the_files(
    total: i64,
    both: i64,
    raw_only: i64,
    jpg_only: i64,
    k: int,
)
    requires
        0 <= k < 5,
        i64::MIN <= raw_only + jpg_only <= i64::MAX,
    ensures
        ({
            let f = pair_state_facets(total, both, raw_only, jpg_only);
            &&& f.len() == 5
            &&& pair_named(f[k].label) == f[k].key
            &&& f[k].key == "all"@ ==> f[k].count == total
            &&& f[k].key == "both"@ ==> f[k].count == both
            &&& f[k].key == "rawOnly"@ ==> f[k].count == raw_only
            &&& f[k].key == "jpgOnly"@ ==> f[k].count == jpg_only
            &&& f[k].key == "orphan"@ ==> f[k].count == raw_only + jpg_only
        }),
{
    reveal_strlit("all");
    reveal_strlit("both");
    reveal_strlit("rawOnly");
    reveal_strlit("jpgOnly");
    reveal_strlit("orphan");
    assert("all"@[0] != "both"@[0] && "all"@[0] != "rawOnly"@[0] && "all"@[0] != "jpgOnly"@[0]
        && "all"@[0] != "orphan"@[0]);
    assert("both"@[0] != "rawOnly"@[0] && "both"@[0] != "jpgOnly"@[0] && "both"@[0]
        != "orphan"@[0]);
    assert("rawOnly"@[0] != "jpgOnly"@[0] && "rawOnly"@[0] != "orphan"@[0] && "jpgOnly"@[0]
        != "orphan"@[0]);
    reveal_strlit("全部");
    reveal_strlit("NEF + JPG");
    reveal_strlit("仅 NEF");
    reveal_strlit("仅 JPG");
    reveal_strlit("有缺失（孤立）");
    assert("NEF + JPG"@[0] != "全部"@[0]);
    assert("仅 NEF"@[0] != "全部"@[0] && "仅 NEF"@[0] != "NEF + JPG"@[0]);
    assert("仅 JPG"@[0] != "全部"@[0] && "仅 JPG"@[0] != "NEF + JPG"@[0] && "仅 JPG"@[2]
        != "仅 NEF"@[2]);
    assert("有缺失（孤立）"@[0] != "全部"@[0] && "有缺失（孤立）"@[0] != "NEF + JPG"@[0]);
    assert("有缺失（孤立）"@[0] != "仅 NEF"@[0]);
    assert("有缺失（孤立）"@.len() != "仅 JPG"@.len());
}

/// Days and lenses are shown as they are, in the order in which they were given, with
/// their counts; those without a value come under a key of their own.
pub proof fn law_values_are_shown_as_they_are(rows: Seq<NamedCount>, undated: i64, k: int)
    requires
        0 <= k < rows.len(),
    ensures
        ({
            let day = day_facets(rows, undated)[k];
            let lens = named_facets(rows, "未知镜头"@)[k];
            &&& day.key == rows[k].name@ && day.label == rows[k].name@ && day.count
                == rows[k].count
            &&& lens.key == rows[k].name@ && lens.count == rows[k].count
            &&& rows[k].name@ != NONE_KEY@ ==> lens.label == rows[k].name@
            &&& day_facets(rows, undated).len() == rows.len() + (if undated > 0 {
                1int
            } else {
                0
            })
            &&& undated > 0 ==> day_facets(rows, undated).last().key == NONE_KEY@ && day_facets(
                rows,
                undated,
            ).last().count == undated
        }),
{
}

/// A camera is known by its serial number, and shown by its model; those without a serial
/// number are marked as such. The first of the decisions stands for all photos.
pub proof fn law_cameras_are_shown_by_model(
    rows: Seq<CameraCount>,
    k: int,
    total: i64,
    none: i64,
    keep: i64,
    reject: i64,
)
    requires
        0 <= k < rows.len(),
    ensures
        ({
            let f = camera_facets(rows)[k];
            &&& camera_facets(rows).len() == rows.len()
            &&& f.key == rows[k].serial@
            &&& f.count == rows[k].count
            &&& rows[k].serial@ != NONE_KEY@ ==> f.label == rows[k].model@
            &&& rows[k].serial@ == NONE_KEY@ ==> f.label == rows[k].model@ + "（无序列号）"@
        }),
        ({
            let d = decision_facets(total, none, keep, reject);
            &&& d[0].key == "all"@ && d[0].count == total
            &&& d[1].key == "none"@ && d[1].count == none
            &&& d[2].key == "keep"@ && d[2].count == keep
            &&& d[3].key == "reject"@ && d[3].count == reject
        }),
{
}

} // verus!
