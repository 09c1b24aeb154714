//! The names of numbered settings read back: each name stands for one number.
//!
//! The numbers are those of the EXIF and TIFF standards. That a setting is shown by its
//! own name and by no other is proved here against the way back, from names to numbers.
use vstd::prelude::*;

use crate::af::mode_name;
use crate::exif_detail::{lookup_text, name_in, Table};
use crate::text::dec;

verus! {

/// The number of a setting from its name.
pub open spec fn exposure_program_number(name: Seq<char>) -> Option<u32> {
    if name == "未定义"@ {
        Some(0)
    } else if name == "手动"@ {
        Some(1)
    } else if name == "程序自动"@ {
        Some(2)
    } else if name == "光圈优先"@ {
        Some(3)
    } else if name == "快门优先"@ {
        Some(4)
    } else if name == "创意（低速优先）"@ {
        Some(5)
    } else if name == "运动（高速优先）"@ {
        Some(6)
    } else if name == "人像"@ {
        Some(7)
    } else if name == "风景"@ {
        Some(8)
    } else if name == "微距"@ {
        Some(9)
    } else {
        None
    }
}

proof fn lemma_exposure_program(v: u32, name: Seq<char>)
    ensures
        name_in(Table::ExposureProgram, v) == Some(name) <==> exposure_program_number(name) == Some(v),
{
    reveal_strlit("未定义");
    reveal_strlit("手动");
    reveal_strlit("程序自动");
    reveal_strlit("光圈优先");
    reveal_strlit("快门优先");
    reveal_strlit("创意（低速优先）");
    reveal_strlit("运动（高速优先）");
    reveal_strlit("人像");
    reveal_strlit("风景");
    reveal_strlit("微距");
    assert("未定义"@.len() != "手动"@.len());
    assert("未定义"@.len() != "程序自动"@.len());
    assert("未定义"@.len() != "光圈优先"@.len());
    assert("未定义"@.len() != "快门优先"@.len());
    assert("未定义"@.len() != "创意（低速优先）"@.len());
    assert("未定义"@.len() != "运动（高速优先）"@.len());
    assert("未定义"@.len() != "人像"@.len());
    assert("未定义"@.len() != "风景"@.len());
    assert("未定义"@.len() != "微距"@.len());
    assert("手动"@.len() != "程序自动"@.len());
    assert("手动"@.len() != "光圈优先"@.len());
    assert("手动"@.len() != "快门优先"@.len());
    assert("手动"@.len() != "创意（低速优先）"@.len());
    assert("手动"@.len() != "运动（高速优先）"@.len());
    assert("手动"@[0] != "人像"@[0]);
    assert("手动"@[0] != "风景"@[0]);
    assert("手动"@[0] != "微距"@[0]);
    assert("程序自动"@[0] != "光圈优先"@[0]);
    assert("程序自动"@[0] != "快门优先"@[0]);
    assert("程序自动"@.len() != "创意（低速优先）"@.len());
    assert("程序自动"@.len() != "运动（高速优先）"@.len());
    assert("程序自动"@.len() != "人像"@.len());
    assert("程序自动"@.len() != "风景"@.len());
    assert("程序自动"@.len() != "微距"@.len());
    assert("光圈优先"@[0] != "快门优先"@[0]);
    assert("光圈优先"@.len() != "创意（低速优先）"@.len());
    assert("光圈优先"@.len() != "运动（高速优先）"@.len());
    assert("光圈优先"@.len() != "人像"@.len());
    assert("光圈优先"@.len() != "风景"@.len());
    assert("光圈优先"@.len() != "微距"@.len());
    assert("快门优先"@.len() != "创意（低速优先）"@.len());
    assert("快门优先"@.len() != "运动（高速优先）"@.len());
    assert("快门优先"@.len() != "人像"@.len());
    assert("快门优先"@.len() != "风景"@.len());
    assert("快门优先"@.len() != "微距"@.len());
    assert("创意（低速优先）"@[0] != "运动（高速优先）"@[0]);
    assert("创意（低速优先）"@.len() != "人像"@.len());
    assert("创意（低速优先）"@.len() != "风景"@.len());
    assert("创意（低速优先）"@.len() != "微距"@.len());
    assert("运动（高速优先）"@.len() != "人像"@.len());
    assert("运动（高速优先）"@.len() != "风景"@.len());
    assert("运动（高速优先）"@.len() != "微距"@.len());
    assert("人像"@[0] != "风景"@[0]);
    assert("人像"@[0] != "微距"@[0]);
    assert("风景"@[0] != "微距"@[0]);
}

/// The number of a setting from its name.
pub open spec fn exposure_mode_number(name: Seq<char>) -> Option<u32> {
    if name == "自动曝光"@ {
        Some(0)
    } else if name == "手动曝光"@ {
        Some(1)
    } else if name == "自动包围曝光"@ {
        Some(2)
    } else {
        None
    }
}

proof fn lemma_exposure_mode(v: u32, name: Seq<char>)
    ensures
        name_in(Table::ExposureMode, v) == Some(name) <==> exposure_mode_number(name) == Some(v),
{
    reveal_strlit("自动曝光");
    reveal_strlit("手动曝光");
    reveal_strlit("自动包围曝光");
    assert("自动曝光"@[0] != "手动曝光"@[0]);
    assert("自动曝光"@.len() != "自动包围曝光"@.len());
    assert("手动曝光"@.len() != "自动包围曝光"@.len());
}

/// The number of a setting from its name.
pub open spec fn metering_mode_number(name: Seq<char>) -> Option<u32> {
    if name == "未知"@ {
        Some(0)
    } else if name == "平均测光"@ {
        Some(1)
    } else if name == "中央重点平均"@ {
        Some(2)
    } else if name == "点测光"@ {
        Some(3)
    } else if name == "多点测光"@ {
        Some(4)
    } else if name == "评价测光（矩阵）"@ {
        Some(5)
    } else if name == "局部测光"@ {
        Some(6)
    } else if name == "其他"@ {
        Some(255)
    } else {
        None
    }
}

proof fn lemma_metering_mode(v: u32, name: Seq<char>)
    ensures
        name_in(Table::MeteringMode, v) == Some(name) <==> metering_mode_number(name) == Some(v),
{
    reveal_strlit("未知");
    reveal_strlit("平均测光");
    reveal_strlit("中央重点平均");
    reveal_strlit("点测光");
    reveal_strlit("多点测光");
    reveal_strlit("评价测光（矩阵）");
    reveal_strlit("局部测光");
    reveal_strlit("其他");
    assert("未知"@.len() != "平均测光"@.len());
    assert("未知"@.len() != "中央重点平均"@.len());
    assert("未知"@.len() != "点测光"@.len());
    assert("未知"@.len() != "多点测光"@.len());
    assert("未知"@.len() != "评价测光（矩阵）"@.len());
    assert("未知"@.len() != "局部测光"@.len());
    assert("未知"@[0] != "其他"@[0]);
    assert("平均测光"@.len() != "中央重点平均"@.len());
    assert("平均测光"@.len() != "点测光"@.len());
    assert("平均测光"@[0] != "多点测光"@[0]);
    assert("平均测光"@.len() != "评价测光（矩阵）"@.len());
    assert("平均测光"@[0] != "局部测光"@[0]);
    assert("平均测光"@.len() != "其他"@.len());
    assert("中央重点平均"@.len() != "点测光"@.len());
    assert("中央重点平均"@.len() != "多点测光"@.len());
    assert("中央重点平均"@.len() != "评价测光（矩阵）"@.len());
    assert("中央重点平均"@.len() != "局部测光"@.len());
    assert("中央重点平均"@.len() != "其他"@.len());
    assert("点测光"@.len() != "多点测光"@.len());
    assert("点测光"@.len() != "评价测光（矩阵）"@.len());
    assert("点测光"@.len() != "局部测光"@.len());
    assert("点测光"@.len() != "其他"@.len());
    assert("多点测光"@.len() != "评价测光（矩阵）"@.len());
    assert("多点测光"@[0] != "局部测光"@[0]);
    assert("多点测光"@.len() != "其他"@.len());
    assert("评价测光（矩阵）"@.len() != "局部测光"@.len());
    assert("评价测光（矩阵）"@.len() != "其他"@.len());
    assert("局部测光"@.len() != "其他"@.len());
}

/// The number of a setting from its name.
pub open spec fn orientation_number(name: Seq<char>) -> Option<u32> {
    if name == "正常"@ {
        Some(1)
    } else if name == "水平翻转"@ {
        Some(2)
    } else if name == "旋转 180°"@ {
        Some(3)
    } else if name == "垂直翻转"@ {
        Some(4)
    } else if name == "顺时针 90° + 水平翻转"@ {
        Some(5)
    } else if name == "顺时针 90°"@ {
        Some(6)
    } else if name == "逆时针 90° + 水平翻转"@ {
        Some(7)
    } else if name == "逆时针 90°"@ {
        Some(8)
    } else {
        None
    }
}

proof fn lemma_orientation(v: u32, name: Seq<char>)
    ensures
        name_in(Table::Orientation, v) == Some(name) <==> orientation_number(name) == Some(v),
{
    reveal_strlit("正常");
    reveal_strlit("水平翻转");
    reveal_strlit("旋转 180°");
    reveal_strlit("垂直翻转");
    reveal_strlit("顺时针 90° + 水平翻转");
    reveal_strlit("顺时针 90°");
    reveal_strlit("逆时针 90° + 水平翻转");
    reveal_strlit("逆时针 90°");
    assert("正常"@.len() != "水平翻转"@.len());
    assert("正常"@.len() != "旋转 180°"@.len());
    assert("正常"@.len() != "垂直翻转"@.len());
    assert("正常"@.len() != "顺时针 90° + 水平翻转"@.len());
    assert("正常"@.len() != "顺时针 90°"@.len());
    assert("正常"@.len() != "逆时针 90° + 水平翻转"@.len());
    assert("正常"@.len() != "逆时针 90°"@.len());
    assert("水平翻转"@.len() != "旋转 180°"@.len());
    assert("水平翻转"@[0] != "垂直翻转"@[0]);
    assert("水平翻转"@.len() != "顺时针 90° + 水平翻转"@.len());
    assert("水平翻转"@.len() != "顺时针 90°"@.len());
    assert("水平翻转"@.len() != "逆时针 90° + 水平翻转"@.len());
    assert("水平翻转"@.len() != "逆时针 90°"@.len());
    assert("旋转 180°"@.len() != "垂直翻转"@.len());
    assert("旋转 180°"@.len() != "顺时针 90° + 水平翻转"@.len());
    assert("旋转 180°"@[0] != "顺时针 90°"@[0]);
    assert("旋转 180°"@.len() != "逆时针 90° + 水平翻转"@.len());
    assert("旋转 180°"@[0] != "逆时针 90°"@[0]);
    assert("垂直翻转"@.len() != "顺时针 90° + 水平翻转"@.len());
    assert("垂直翻转"@.len() != "顺时针 90°"@.len());
    assert("垂直翻转"@.len() != "逆时针 90° + 水平翻转"@.len());
    assert("垂直翻转"@.len() != "逆时针 90°"@.len());
    assert("顺时针 90° + 水平翻转"@.len() != "顺时针 90°"@.len());
    assert("顺时针 90° + 水平翻转"@[0] != "逆时针 90° + 水平翻转"@[0]);
    assert("顺时针 90° + 水平翻转"@.len() != "逆时针 90°"@.len());
    assert("顺时针 90°"@.len() != "逆时针 90° + 水平翻转"@.len());
    assert("顺时针 90°"@[0] != "逆时针 90°"@[0]);
    assert("逆时针 90° + 水平翻转"@.len() != "逆时针 90°"@.len());
}

/// The number of a setting from its name.
pub open spec fn color_space_number(name: Seq<char>) -> Option<u32> {
    if name == "sRGB"@ {
        Some(1)
    } else if name == "Adobe RGB"@ {
        Some(2)
    } else if name == "未校准"@ {
        Some(65535)
    } else {
        None
    }
}

proof fn lemma_color_space(v: u32, name: Seq<char>)
    ensures
        name_in(Table::ColorSpace, v) == Some(name) <==> color_space_number(name) == Some(v),
{
    reveal_strlit("sRGB");
    reveal_strlit("Adobe RGB");
    reveal_strlit("未校准");
    assert("sRGB"@.len() != "Adobe RGB"@.len());
    assert("sRGB"@.len() != "未校准"@.len());
    assert("Adobe RGB"@.len() != "未校准"@.len());
}

/// The number of a setting from its name.
pub open spec fn white_balance_number(name: Seq<char>) -> Option<u32> {
    if name == "自动"@ {
        Some(0)
    } else if name == "手动"@ {
        Some(1)
    } else {
        None
    }
}

proof fn lemma_white_balance(v: u32, name: Seq<char>)
    ensures
        name_in(Table::WhiteBalance, v) == Some(name) <==> white_balance_number(name) == Some(v),
{
    reveal_strlit("自动");
    reveal_strlit("手动");
    assert("自动"@[0] != "手动"@[0]);
}

/// The number of a setting from its name.
pub open spec fn light_source_number(name: Seq<char>) -> Option<u32> {
    if name == "未知"@ {
        Some(0)
    } else if name == "日光"@ {
        Some(1)
    } else if name == "荧光灯"@ {
        Some(2)
    } else if name == "白炽灯（钨丝）"@ {
        Some(3)
    } else if name == "闪光灯"@ {
        Some(4)
    } else if name == "晴天"@ {
        Some(9)
    } else if name == "阴天"@ {
        Some(10)
    } else if name == "阴影"@ {
        Some(11)
    } else if name == "白荧光灯"@ {
        Some(15)
    } else if name == "标准光源 A"@ {
        Some(17)
    } else if name == "标准光源 B"@ {
        Some(18)
    } else if name == "标准光源 C"@ {
        Some(19)
    } else if name == "D55"@ {
        Some(20)
    } else if name == "D65"@ {
        Some(21)
    } else if name == "D75"@ {
        Some(22)
    } else if name == "其他"@ {
        Some(255)
    } else {
        None
    }
}

proof fn lemma_light_source(v: u32, name: Seq<char>)
    ensures
        name_in(Table::LightSource, v) == Some(name) <==> light_source_number(name) == Some(v),
{
    reveal_strlit("未知");
    reveal_strlit("日光");
    reveal_strlit("荧光灯");
    reveal_strlit("白炽灯（钨丝）");
    reveal_strlit("闪光灯");
    reveal_strlit("晴天");
    reveal_strlit("阴天");
    reveal_strlit("阴影");
    reveal_strlit("白荧光灯");
    reveal_strlit("标准光源 A");
    reveal_strlit("标准光源 B");
    reveal_strlit("标准光源 C");
    reveal_strlit("D55");
    reveal_strlit("D65");
    reveal_strlit("D75");
    reveal_strlit("其他");
    assert("未知"@[0] != "日光"@[0]);
    assert("未知"@.len() != "荧光灯"@.len());
    assert("未知"@.len() != "白炽灯（钨丝）"@.len());
    assert("未知"@.len() != "闪光灯"@.len());
    assert("未知"@[0] != "晴天"@[0]);
    assert("未知"@[0] != "阴天"@[0]);
    assert("未知"@[0] != "阴影"@[0]);
    assert("未知"@.len() != "白荧光灯"@.len());
    assert("未知"@.len() != "标准光源 A"@.len());
    assert("未知"@.len() != "标准光源 B"@.len());
    assert("未知"@.len() != "标准光源 C"@.len());
    assert("未知"@.len() != "D55"@.len());
    assert("未知"@.len() != "D65"@.len());
    assert("未知"@.len() != "D75"@.len());
    assert("未知"@[0] != "其他"@[0]);
    assert("日光"@.len() != "荧光灯"@.len());
    assert("日光"@.len() != "白炽灯（钨丝）"@.len());
    assert("日光"@.len() != "闪光灯"@.len());
    assert("日光"@[0] != "晴天"@[0]);
    assert("日光"@[0] != "阴天"@[0]);
    assert("日光"@[0] != "阴影"@[0]);
    assert("日光"@.len() != "白荧光灯"@.len());
    assert("日光"@.len() != "标准光源 A"@.len());
    assert("日光"@.len() != "标准光源 B"@.len());
    assert("日光"@.len() != "标准光源 C"@.len());
    assert("日光"@.len() != "D55"@.len());
    assert("日光"@.len() != "D65"@.len());
    assert("日光"@.len() != "D75"@.len());
    assert("日光"@[0] != "其他"@[0]);
    assert("荧光灯"@.len() != "白炽灯（钨丝）"@.len());
    assert("荧光灯"@[0] != "闪光灯"@[0]);
    assert("荧光灯"@.len() != "晴天"@.len());
    assert("荧光灯"@.len() != "阴天"@.len());
    assert("荧光灯"@.len() != "阴影"@.len());
    assert("荧光灯"@.len() != "白荧光灯"@.len());
    assert("荧光灯"@.len() != "标准光源 A"@.len());
    assert("荧光灯"@.len() != "标准光源 B"@.len());
    assert("荧光灯"@.len() != "标准光源 C"@.len());
    assert("荧光灯"@[0] != "D55"@[0]);
    assert("荧光灯"@[0] != "D65"@[0]);
    assert("荧光灯"@[0] != "D75"@[0]);
    assert("荧光灯"@.len() != "其他"@.len());
    assert("白炽灯（钨丝）"@.len() != "闪光灯"@.len());
    assert("白炽灯（钨丝）"@.len() != "晴天"@.len());
    assert("白炽灯（钨丝）"@.len() != "阴天"@.len());
    assert("白炽灯（钨丝）"@.len() != "阴影"@.len());
    assert("白炽灯（钨丝）"@.len() != "白荧光灯"@.len());
    assert("白炽灯（钨丝）"@.len() != "标准光源 A"@.len());
    assert("白炽灯（钨丝）"@.len() != "标准光源 B"@.len());
    assert("白炽灯（钨丝）"@.len() != "标准光源 C"@.len());
    assert("白炽灯（钨丝）"@.len() != "D55"@.len());
    assert("白炽灯（钨丝）"@.len() != "D65"@.len());
    assert("白炽灯（钨丝）"@.len() != "D75"@.len());
    assert("白炽灯（钨丝）"@.len() != "其他"@.len());
    assert("闪光灯"@.len() != "晴天"@.len());
    assert("闪光灯"@.len() != "阴天"@.len());
    assert("闪光灯"@.len() != "阴影"@.len());
    assert("闪光灯"@.len() != "白荧光灯"@.len());
    assert("闪光灯"@.len() != "标准光源 A"@.len());
    assert("闪光灯"@.len() != "标准光源 B"@.len());
    assert("闪光灯"@.len() != "标准光源 C"@.len());
    assert("闪光灯"@[0] != "D55"@[0]);
    assert("闪光灯"@[0] != "D65"@[0]);
    assert("闪光灯"@[0] != "D75"@[0]);
    assert("闪光灯"@.len() != "其他"@.len());
    assert("晴天"@[0] != "阴天"@[0]);
    assert("晴天"@[0] != "阴影"@[0]);
    assert("晴天"@.len() != "白荧光灯"@.len());
    assert("晴天"@.len() != "标准光源 A"@.len());
    assert("晴天"@.len() != "标准光源 B"@.len());
    assert("晴天"@.len() != "标准光源 C"@.len());
    assert("晴天"@.len() != "D55"@.len());
    assert("晴天"@.len() != "D65"@.len());
    assert("晴天"@.len() != "D75"@.len());
    assert("晴天"@[0] != "其他"@[0]);
    assert("阴天"@[1] != "阴影"@[1]);
    assert("阴天"@.len() != "白荧光灯"@.len());
    assert("阴天"@.len() != "标准光源 A"@.len());
    assert("阴天"@.len() != "标准光源 B"@.len());
    assert("阴天"@.len() != "标准光源 C"@.len());
    assert("阴天"@.len() != "D55"@.len());
    assert("阴天"@.len() != "D65"@.len());
    assert("阴天"@.len() != "D75"@.len());
    assert("阴天"@[0] != "其他"@[0]);
    assert("阴影"@.len() != "白荧光灯"@.len());
    assert("阴影"@.len() != "标准光源 A"@.len());
    assert("阴影"@.len() != "标准光源 B"@.len());
    assert("阴影"@.len() != "标准光源 C"@.len());
    assert("阴影"@.len() != "D55"@.len());
    assert("阴影"@.len() != "D65"@.len());
    assert("阴影"@.len() != "D75"@.len());
    assert("阴影"@[0] != "其他"@[0]);
    assert("白荧光灯"@.len() != "标准光源 A"@.len());
    assert("白荧光灯"@.len() != "标准光源 B"@.len());
    assert("白荧光灯"@.len() != "标准光源 C"@.len());
    assert("白荧光灯"@.len() != "D55"@.len());
    assert("白荧光灯"@.len() != "D65"@.len());
    assert("白荧光灯"@.len() != "D75"@.len());
    assert("白荧光灯"@.len() != "其他"@.len());
    assert("标准光源 A"@[5] != "标准光源 B"@[5]);
    assert("标准光源 A"@[5] != "标准光源 C"@[5]);
    assert("标准光源 A"@.len() != "D55"@.len());
    assert("标准光源 A"@.len() != "D65"@.len());
    assert("标准光源 A"@.len() != "D75"@.len());
    assert("标准光源 A"@.len() != "其他"@.len());
    assert("标准光源 B"@[5] != "标准光源 C"@[5]);
    assert("标准光源 B"@.len() != "D55"@.len());
    assert("标准光源 B"@.len() != "D65"@.len());
    assert("标准光源 B"@.len() != "D75"@.len());
    assert("标准光源 B"@.len() != "其他"@.len());
    assert("标准光源 C"@.len() != "D55"@.len());
    assert("标准光源 C"@.len() != "D65"@.len());
    assert("标准光源 C"@.len() != "D75"@.len());
    assert("标准光源 C"@.len() != "其他"@.len());
    assert("D55"@[1] != "D65"@[1]);
    assert("D55"@[1] != "D75"@[1]);
    assert("D55"@.len() != "其他"@.len());
    assert("D65"@[1] != "D75"@[1]);
    assert("D65"@.len() != "其他"@.len());
    assert("D75"@.len() != "其他"@.len());
}

/// The number of a setting from its name.
pub open spec fn scene_capture_number(name: Seq<char>) -> Option<u32> {
    if name == "标准"@ {
        Some(0)
    } else if name == "人像"@ {
        Some(1)
    } else if name == "风景"@ {
        Some(2)
    } else if name == "夜景"@ {
        Some(3)
    } else {
        None
    }
}

proof fn lemma_scene_capture(v: u32, name: Seq<char>)
    ensures
        name_in(Table::SceneCapture, v) == Some(name) <==> scene_capture_number(name) == Some(v),
{
    reveal_strlit("标准");
    reveal_strlit("人像");
    reveal_strlit("风景");
    reveal_strlit("夜景");
    assert("标准"@[0] != "人像"@[0]);
    assert("标准"@[0] != "风景"@[0]);
    assert("标准"@[0] != "夜景"@[0]);
    assert("人像"@[0] != "风景"@[0]);
    assert("人像"@[0] != "夜景"@[0]);
    assert("风景"@[0] != "夜景"@[0]);
}

/// The number of a setting from its name.
pub open spec fn tone_number(name: Seq<char>) -> Option<u32> {
    if name == "标准"@ {
        Some(0)
    } else if name == "低"@ {
        Some(1)
    } else if name == "高"@ {
        Some(2)
    } else {
        None
    }
}

proof fn lemma_tone(v: u32, name: Seq<char>)
    ensures
        name_in(Table::Tone, v) == Some(name) <==> tone_number(name) == Some(v),
{
    reveal_strlit("标准");
    reveal_strlit("低");
    reveal_strlit("高");
    assert("标准"@.len() != "低"@.len());
    assert("标准"@.len() != "高"@.len());
    assert("低"@[0] != "高"@[0]);
}

/// The number of a setting from its name.
pub open spec fn gain_control_number(name: Seq<char>) -> Option<u32> {
    if name == "无"@ {
        Some(0)
    } else if name == "低增益提升"@ {
        Some(1)
    } else if name == "高增益提升"@ {
        Some(2)
    } else if name == "低增益降低"@ {
        Some(3)
    } else if name == "高增益降低"@ {
        Some(4)
    } else {
        None
    }
}

proof fn lemma_gain_control(v: u32, name: Seq<char>)
    ensures
        name_in(Table::GainControl, v) == Some(name) <==> gain_control_number(name) == Some(v),
{
    reveal_strlit("无");
    reveal_strlit("低增益提升");
    reveal_strlit("高增益提升");
    reveal_strlit("低增益降低");
    reveal_strlit("高增益降低");
    assert("无"@.len() != "低增益提升"@.len());
    assert("无"@.len() != "高增益提升"@.len());
    assert("无"@.len() != "低增益降低"@.len());
    assert("无"@.len() != "高增益降低"@.len());
    assert("低增益提升"@[0] != "高增益提升"@[0]);
    assert("低增益提升"@[3] != "低增益降低"@[3]);
    assert("低增益提升"@[0] != "高增益降低"@[0]);
    assert("高增益提升"@[0] != "低增益降低"@[0]);
    assert("高增益提升"@[3] != "高增益降低"@[3]);
    assert("低增益降低"@[0] != "高增益降低"@[0]);
}

/// The number of a setting from its name.
pub open spec fn custom_rendered_number(name: Seq<char>) -> Option<u32> {
    if name == "普通流程"@ {
        Some(0)
    } else if name == "自定义处理"@ {
        Some(1)
    } else {
        None
    }
}

proof fn lemma_custom_rendered(v: u32, name: Seq<char>)
    ensures
        name_in(Table::CustomRendered, v) == Some(name) <==> custom_rendered_number(name) == Some(v),
{
    reveal_strlit("普通流程");
    reveal_strlit("自定义处理");
    assert("普通流程"@.len() != "自定义处理"@.len());
}

/// The number of a setting from its name.
pub open spec fn subject_distance_range_number(name: Seq<char>) -> Option<u32> {
    if name == "未知"@ {
        Some(0)
    } else if name == "微距"@ {
        Some(1)
    } else if name == "近景"@ {
        Some(2)
    } else if name == "远景"@ {
        Some(3)
    } else {
        None
    }
}

proof fn lemma_subject_distance_range(v: u32, name: Seq<char>)
    ensures
        name_in(Table::SubjectDistanceRange, v) == Some(name) <==> subject_distance_range_number(name) == Some(v),
{
    reveal_strlit("未知");
    reveal_strlit("微距");
    reveal_strlit("近景");
    reveal_strlit("远景");
    assert("未知"@[0] != "微距"@[0]);
    assert("未知"@[0] != "近景"@[0]);
    assert("未知"@[0] != "远景"@[0]);
    assert("微距"@[0] != "近景"@[0]);
    assert("微距"@[0] != "远景"@[0]);
    assert("近景"@[0] != "远景"@[0]);
}

/// The number of a setting from its name.
pub open spec fn sensing_method_number(name: Seq<char>) -> Option<u32> {
    if name == "单色区传感器"@ {
        Some(1)
    } else if name == "单芯片彩色"@ {
        Some(2)
    } else if name == "双芯片彩色"@ {
        Some(3)
    } else if name == "三芯片彩色"@ {
        Some(4)
    } else if name == "色彩顺序"@ {
        Some(5)
    } else if name == "三线性"@ {
        Some(7)
    } else if name == "色彩线性"@ {
        Some(8)
    } else {
        None
    }
}

proof fn lemma_sensing_method(v: u32, name: Seq<char>)
    ensures
        name_in(Table::SensingMethod, v) == Some(name) <==> sensing_method_number(name) == Some(v),
{
    reveal_strlit("单色区传感器");
    reveal_strlit("单芯片彩色");
    reveal_strlit("双芯片彩色");
    reveal_strlit("三芯片彩色");
    reveal_strlit("色彩顺序");
    reveal_strlit("三线性");
    reveal_strlit("色彩线性");
    assert("单色区传感器"@.len() != "单芯片彩色"@.len());
    assert("单色区传感器"@.len() != "双芯片彩色"@.len());
    assert("单色区传感器"@.len() != "三芯片彩色"@.len());
    assert("单色区传感器"@.len() != "色彩顺序"@.len());
    assert("单色区传感器"@.len() != "三线性"@.len());
    assert("单色区传感器"@.len() != "色彩线性"@.len());
    assert("单芯片彩色"@[0] != "双芯片彩色"@[0]);
    assert("单芯片彩色"@[0] != "三芯片彩色"@[0]);
    assert("单芯片彩色"@.len() != "色彩顺序"@.len());
    assert("单芯片彩色"@.len() != "三线性"@.len());
    assert("单芯片彩色"@.len() != "色彩线性"@.len());
    assert("双芯片彩色"@[0] != "三芯片彩色"@[0]);
    assert("双芯片彩色"@.len() != "色彩顺序"@.len());
    assert("双芯片彩色"@.len() != "三线性"@.len());
    assert("双芯片彩色"@.len() != "色彩线性"@.len());
    assert("三芯片彩色"@.len() != "色彩顺序"@.len());
    assert("三芯片彩色"@.len() != "三线性"@.len());
    assert("三芯片彩色"@.len() != "色彩线性"@.len());
    assert("色彩顺序"@.len() != "三线性"@.len());
    assert("色彩顺序"@[2] != "色彩线性"@[2]);
    assert("三线性"@.len() != "色彩线性"@.len());
}

/// The number of a setting from its name.
pub open spec fn compression_number(name: Seq<char>) -> Option<u32> {
    if name == "未压缩"@ {
        Some(1)
    } else if name == "JPEG（旧式）"@ {
        Some(6)
    } else if name == "JPEG"@ {
        Some(7)
    } else if name == "Deflate"@ {
        Some(8)
    } else if name == "PackBits"@ {
        Some(32773)
    } else if name == "JPEG 2000"@ {
        Some(34712)
    } else if name == "尼康 NEF 压缩"@ {
        Some(34713)
    } else if name == "Lossy JPEG"@ {
        Some(34892)
    } else {
        None
    }
}

proof fn lemma_compression(v: u32, name: Seq<char>)
    ensures
        name_in(Table::Compression, v) == Some(name) <==> compression_number(name) == Some(v),
{
    reveal_strlit("未压缩");
    reveal_strlit("JPEG（旧式）");
    reveal_strlit("JPEG");
    reveal_strlit("Deflate");
    reveal_strlit("PackBits");
    reveal_strlit("JPEG 2000");
    reveal_strlit("尼康 NEF 压缩");
    reveal_strlit("Lossy JPEG");
    assert("未压缩"@.len() != "JPEG（旧式）"@.len());
    assert("未压缩"@.len() != "JPEG"@.len());
    assert("未压缩"@.len() != "Deflate"@.len());
    assert("未压缩"@.len() != "PackBits"@.len());
    assert("未压缩"@.len() != "JPEG 2000"@.len());
    assert("未压缩"@.len() != "尼康 NEF 压缩"@.len());
    assert("未压缩"@.len() != "Lossy JPEG"@.len());
    assert("JPEG（旧式）"@.len() != "JPEG"@.len());
    assert("JPEG（旧式）"@.len() != "Deflate"@.len());
    assert("JPEG（旧式）"@[0] != "PackBits"@[0]);
    assert("JPEG（旧式）"@.len() != "JPEG 2000"@.len());
    assert("JPEG（旧式）"@.len() != "尼康 NEF 压缩"@.len());
    assert("JPEG（旧式）"@.len() != "Lossy JPEG"@.len());
    assert("JPEG"@.len() != "Deflate"@.len());
    assert("JPEG"@.len() != "PackBits"@.len());
    assert("JPEG"@.len() != "JPEG 2000"@.len());
    assert("JPEG"@.len() != "尼康 NEF 压缩"@.len());
    assert("JPEG"@.len() != "Lossy JPEG"@.len());
    assert("Deflate"@.len() != "PackBits"@.len());
    assert("Deflate"@.len() != "JPEG 2000"@.len());
    assert("Deflate"@.len() != "尼康 NEF 压缩"@.len());
    assert("Deflate"@.len() != "Lossy JPEG"@.len());
    assert("PackBits"@.len() != "JPEG 2000"@.len());
    assert("PackBits"@.len() != "尼康 NEF 压缩"@.len());
    assert("PackBits"@.len() != "Lossy JPEG"@.len());
    assert("JPEG 2000"@[0] != "尼康 NEF 压缩"@[0]);
    assert("JPEG 2000"@.len() != "Lossy JPEG"@.len());
    assert("尼康 NEF 压缩"@.len() != "Lossy JPEG"@.len());
}

/// The number of a setting from its name.
pub open spec fn photometric_number(name: Seq<char>) -> Option<u32> {
    if name == "WhiteIsZero"@ {
        Some(0)
    } else if name == "BlackIsZero"@ {
        Some(1)
    } else if name == "RGB"@ {
        Some(2)
    } else if name == "调色板"@ {
        Some(3)
    } else if name == "CMYK"@ {
        Some(5)
    } else if name == "YCbCr"@ {
        Some(6)
    } else if name == "CIELAB"@ {
        Some(8)
    } else if name == "彩色滤镜阵列（RAW）"@ {
        Some(32803)
    } else if name == "Linear RAW"@ {
        Some(34892)
    } else {
        None
    }
}

proof fn lemma_photometric(v: u32, name: Seq<char>)
    ensures
        name_in(Table::Photometric, v) == Some(name) <==> photometric_number(name) == Some(v),
{
    reveal_strlit("WhiteIsZero");
    reveal_strlit("BlackIsZero");
    reveal_strlit("RGB");
    reveal_strlit("调色板");
    reveal_strlit("CMYK");
    reveal_strlit("YCbCr");
    reveal_strlit("CIELAB");
    reveal_strlit("彩色滤镜阵列（RAW）");
    reveal_strlit("Linear RAW");
    assert("WhiteIsZero"@[0] != "BlackIsZero"@[0]);
    assert("WhiteIsZero"@.len() != "RGB"@.len());
    assert("WhiteIsZero"@.len() != "调色板"@.len());
    assert("WhiteIsZero"@.len() != "CMYK"@.len());
    assert("WhiteIsZero"@.len() != "YCbCr"@.len());
    assert("WhiteIsZero"@.len() != "CIELAB"@.len());
    assert("WhiteIsZero"@[0] != "彩色滤镜阵列（RAW）"@[0]);
    assert("WhiteIsZero"@.len() != "Linear RAW"@.len());
    assert("BlackIsZero"@.len() != "RGB"@.len());
    assert("BlackIsZero"@.len() != "调色板"@.len());
    assert("BlackIsZero"@.len() != "CMYK"@.len());
    assert("BlackIsZero"@.len() != "YCbCr"@.len());
    assert("BlackIsZero"@.len() != "CIELAB"@.len());
    assert("BlackIsZero"@[0] != "彩色滤镜阵列（RAW）"@[0]);
    assert("BlackIsZero"@.len() != "Linear RAW"@.len());
    assert("RGB"@[0] != "调色板"@[0]);
    assert("RGB"@.len() != "CMYK"@.len());
    assert("RGB"@.len() != "YCbCr"@.len());
    assert("RGB"@.len() != "CIELAB"@.len());
    assert("RGB"@.len() != "彩色滤镜阵列（RAW）"@.len());
    assert("RGB"@.len() != "Linear RAW"@.len());
    assert("调色板"@.len() != "CMYK"@.len());
    assert("调色板"@.len() != "YCbCr"@.len());
    assert("调色板"@.len() != "CIELAB"@.len());
    assert("调色板"@.len() != "彩色滤镜阵列（RAW）"@.len());
    assert("调色板"@.len() != "Linear RAW"@.len());
    assert("CMYK"@.len() != "YCbCr"@.len());
    assert("CMYK"@.len() != "CIELAB"@.len());
    assert("CMYK"@.len() != "彩色滤镜阵列（RAW）"@.len());
    assert("CMYK"@.len() != "Linear RAW"@.len());
    assert("YCbCr"@.len() != "CIELAB"@.len());
    assert("YCbCr"@.len() != "彩色滤镜阵列（RAW）"@.len());
    assert("YCbCr"@.len() != "Linear RAW"@.len());
    assert("CIELAB"@.len() != "彩色滤镜阵列（RAW）"@.len());
    assert("CIELAB"@.len() != "Linear RAW"@.len());
    assert("彩色滤镜阵列（RAW）"@.len() != "Linear RAW"@.len());
}

/// The number of a setting from its name.
pub open spec fn resolution_unit_number(name: Seq<char>) -> Option<u32> {
    if name == "像素/无单位"@ {
        Some(1)
    } else if name == "像素/英寸"@ {
        Some(2)
    } else if name == "像素/厘米"@ {
        Some(3)
    } else {
        None
    }
}

proof fn lemma_resolution_unit(v: u32, name: Seq<char>)
    ensures
        name_in(Table::ResolutionUnit, v) == Some(name) <==> resolution_unit_number(name) == Some(v),
{
    reveal_strlit("像素/无单位");
    reveal_strlit("像素/英寸");
    reveal_strlit("像素/厘米");
    assert("像素/无单位"@.len() != "像素/英寸"@.len());
    assert("像素/无单位"@.len() != "像素/厘米"@.len());
    assert("像素/英寸"@[3] != "像素/厘米"@[3]);
}

/// The number that a name in a table stands for.
pub open spec fn number_named(t: Table, name: Seq<char>) -> Option<u32> {
    match t {
        Table::ExposureProgram => exposure_program_number(name),
        Table::ExposureMode => exposure_mode_number(name),
        Table::MeteringMode => metering_mode_number(name),
        Table::Orientation => orientation_number(name),
        Table::ColorSpace => color_space_number(name),
        Table::WhiteBalance => white_balance_number(name),
        Table::LightSource => light_source_number(name),
        Table::SceneCapture => scene_capture_number(name),
        Table::Tone => tone_number(name),
        Table::GainControl => gain_control_number(name),
        Table::CustomRendered => custom_rendered_number(name),
        Table::SubjectDistanceRange => subject_distance_range_number(name),
        Table::SensingMethod => sensing_method_number(name),
        Table::Compression => compression_number(name),
        Table::Photometric => photometric_number(name),
        Table::ResolutionUnit => resolution_unit_number(name),
    }
}

/// Every named setting is shown by its own name, and its number can be read back from the
/// name; so no two settings of a table share a name. A number without a name is shown as
/// it is.
pub proof fn law_names_read_back(t: Table, v: u32, name: Seq<char>)
    ensures
        name_in(t, v) == Some(name) <==> number_named(t, name) == Some(v),
        number_named(t, name) == Some(v) ==> lookup_text(t, v) == name,
        name_in(t, v) is None ==> lookup_text(t, v) == dec(v as nat),
{
    match t {
        Table::ExposureProgram => {
            lemma_exposure_program(v, name);
        },
        Table::ExposureMode => {
            lemma_exposure_mode(v, name);
        },
        Table::MeteringMode => {
            lemma_metering_mode(v, name);
        },
        Table::Orientation => {
            lemma_orientation(v, name);
        },
        Table::ColorSpace => {
            lemma_color_space(v, name);
        },
        Table::WhiteBalance => {
            lemma_white_balance(v, name);
        },
        Table::LightSource => {
            lemma_light_source(v, name);
        },
        Table::SceneCapture => {
            lemma_scene_capture(v, name);
        },
        Table::Tone => {
            lemma_tone(v, name);
        },
        Table::GainControl => {
            lemma_gain_control(v, name);
        },
        Table::CustomRendered => {
            lemma_custom_rendered(v, name);
        },
        Table::SubjectDistanceRange => {
            lemma_subject_distance_range(v, name);
        },
        Table::SensingMethod => {
            lemma_sensing_method(v, name);
        },
        Table::Compression => {
            lemma_compression(v, name);
        },
        Table::Photometric => {
            lemma_photometric(v, name);
        },
        Table::ResolutionUnit => {
            lemma_resolution_unit(v, name);
        },
    }
}

/// The number of a focus area mode from its name.
pub open spec fn focus_mode_number(name: Seq<char>) -> Option<u8> {
    if name == "微点 AF"@ {
        Some(192)
    } else if name == "单点 AF"@ {
        Some(193)
    } else if name == "广域 AF（小）"@ {
        Some(195)
    } else if name == "广域 AF（大）"@ {
        Some(196)
    } else if name == "自动区域 AF"@ {
        Some(197)
    } else if name == "动态区域 AF（小）"@ {
        Some(204)
    } else if name == "动态区域 AF（中）"@ {
        Some(205)
    } else if name == "动态区域 AF（大）"@ {
        Some(206)
    } else if name == "3D 跟踪"@ {
        Some(207)
    } else {
        None
    }
}

/// Every focus area mode is shown by its own name, and can be read back from it.
pub proof fn law_focus_modes_read_back(v: u8, name: Seq<char>)
    ensures
        mode_name(v) == Some(name) <==> focus_mode_number(name) == Some(v),
{
    reveal_strlit("微点 AF");
    reveal_strlit("单点 AF");
    reveal_strlit("广域 AF（小）");
    reveal_strlit("广域 AF（大）");
    reveal_strlit("自动区域 AF");
    reveal_strlit("动态区域 AF（小）");
    reveal_strlit("动态区域 AF（中）");
    reveal_strlit("动态区域 AF（大）");
    reveal_strlit("3D 跟踪");
    assert("微点 AF"@[0] != "单点 AF"@[0]);
    assert("微点 AF"@.len() != "广域 AF（小）"@.len());
    assert("微点 AF"@.len() != "广域 AF（大）"@.len());
    assert("微点 AF"@.len() != "自动区域 AF"@.len());
    assert("微点 AF"@.len() != "动态区域 AF（小）"@.len());
    assert("微点 AF"@.len() != "动态区域 AF（中）"@.len());
    assert("微点 AF"@.len() != "动态区域 AF（大）"@.len());
    assert("微点 AF"@[0] != "3D 跟踪"@[0]);
    assert("单点 AF"@.len() != "广域 AF（小）"@.len());
    assert("单点 AF"@.len() != "广域 AF（大）"@.len());
    assert("单点 AF"@.len() != "自动区域 AF"@.len());
    assert("单点 AF"@.len() != "动态区域 AF（小）"@.len());
    assert("单点 AF"@.len() != "动态区域 AF（中）"@.len());
    assert("单点 AF"@.len() != "动态区域 AF（大）"@.len());
    assert("单点 AF"@[0] != "3D 跟踪"@[0]);
    assert("广域 AF（小）"@[6] != "广域 AF（大）"@[6]);
    assert("广域 AF（小）"@.len() != "自动区域 AF"@.len());
    assert("广域 AF（小）"@.len() != "动态区域 AF（小）"@.len());
    assert("广域 AF（小）"@.len() != "动态区域 AF（中）"@.len());
    assert("广域 AF（小）"@.len() != "动态区域 AF（大）"@.len());
    assert("广域 AF（小）"@.len() != "3D 跟踪"@.len());
    assert("广域 AF（大）"@.len() != "自动区域 AF"@.len());
    assert("广域 AF（大）"@.len() != "动态区域 AF（小）"@.len());
    assert("广域 AF（大）"@.len() != "动态区域 AF（中）"@.len());
    assert("广域 AF（大）"@.len() != "动态区域 AF（大）"@.len());
    assert("广域 AF（大）"@.len() != "3D 跟踪"@.len());
    assert("自动区域 AF"@.len() != "动态区域 AF（小）"@.len());
    assert("自动区域 AF"@.len() != "动态区域 AF（中）"@.len());
    assert("自动区域 AF"@.len() != "动态区域 AF（大）"@.len());
    assert("自动区域 AF"@.len() != "3D 跟踪"@.len());
    assert("动态区域 AF（小）"@[8] != "动态区域 AF（中）"@[8]);
    assert("动态区域 AF（小）"@[8] != "动态区域 AF（大）"@[8]);
    assert("动态区域 AF（小）"@.len() != "3D 跟踪"@.len());
    assert("动态区域 AF（中）"@[8] != "动态区域 AF（大）"@[8]);
    assert("动态区域 AF（中）"@.len() != "3D 跟踪"@.len());
    assert("动态区域 AF（大）"@.len() != "3D 跟踪"@.len());
}

} // verus!
