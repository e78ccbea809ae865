//! The scalar and aggregate functions that a query can apply to values,
//! and the values of those that follow from their arguments.

use human_time::ToHumanTimeString;
use rand::RngExt;
use vstd::prelude::*;

use crate::strings::{
    ascii_lower, find_from, find_str, i64_to_string, int_text, join_strings, join_with,
    lemma_find_from_first, lemma_find_in_range, occurs_at, parse_i32, parse_i64, parse_u64,
    parse_usize, push_radix, push_str, radix_text, replace_all, replace_str, spec_find,
    spec_parse_i32, spec_parse_i64, spec_parse_u64, spec_parse_usize, spec_trim, spec_trim_end,
    spec_trim_start, str_eq, str_to_string, substring, to_ascii_lowercase, to_lowercase,
    to_uppercase, trim, trim_end, trim_start, unicode_lowercase, unicode_uppercase, words,
    unicode_white_space, is_whitespace, push_char,
};

verus! {

#[derive(Debug, Clone, Copy, PartialEq, Eq, Hash, Structural)]
pub enum Function {
    Lower,
    Upper,
    InitCap,
    Length,
    ToBase64,
    FromBase64,
    Concat,
    ConcatWs,
    Locate,
    Substring,
    Replace,
    Trim,
    LTrim,
    RTrim,
    Bin,
    Hex,
    Oct,
    Abs,
    Power,
    Sqrt,
    Log,
    Ln,
    Exp,
    Least,
    Greatest,
    Pi,
    Floor,
    Ceil,
    Round,
    ContainsJapanese,
    ContainsHiragana,
    ContainsKatakana,
    ContainsKana,
    ContainsKanji,
    ContainsGreek,
    FormatSize,
    FormatTime,
    CurrentDate,
    CurrentTime,
    CurrentTimestamp,
    Day,
    Month,
    Year,
    DayOfWeek,
    CurrentUid,
    CurrentUser,
    CurrentGid,
    CurrentGroup,
    Contains,
    HasXattr,
    Xattr,
    HasExtattr,
    Acl,
    HasAclEntry,
    AclEntry,
    DefaultAcl,
    HasDefaultAclEntry,
    DefaultAclEntry,
    HasCapabilities,
    HasCapability,
    Coalesce,
    Random,
    Min,
    Max,
    Avg,
    Sum,
    Count,
    StdDevPop,
    StdDevSamp,
    VarPop,
    VarSamp,
}

/// The function that a lower-case spelling names.
pub open spec fn spec_function_from_lower(t: Seq<char>) -> Option<Function> {
    if t == "lower"@ || t == "lowercase"@ || t == "lcase"@ {
        Some(Function::Lower)
    } else if t == "upper"@ || t == "uppercase"@ || t == "ucase"@ {
        Some(Function::Upper)
    } else if t == "initcap"@ {
        Some(Function::InitCap)
    } else if t == "length"@ || t == "len"@ {
        Some(Function::Length)
    } else if t == "to_base64"@ || t == "base64"@ {
        Some(Function::ToBase64)
    } else if t == "from_base64"@ {
        Some(Function::FromBase64)
    } else if t == "concat"@ {
        Some(Function::Concat)
    } else if t == "concat_ws"@ {
        Some(Function::ConcatWs)
    } else if t == "locate"@ || t == "position"@ {
        Some(Function::Locate)
    } else if t == "substr"@ || t == "substring"@ {
        Some(Function::Substring)
    } else if t == "replace"@ {
        Some(Function::Replace)
    } else if t == "trim"@ {
        Some(Function::Trim)
    } else if t == "ltrim"@ {
        Some(Function::LTrim)
    } else if t == "rtrim"@ {
        Some(Function::RTrim)
    } else if t == "bin"@ {
        Some(Function::Bin)
    } else if t == "hex"@ {
        Some(Function::Hex)
    } else if t == "oct"@ {
        Some(Function::Oct)
    } else if t == "abs"@ {
        Some(Function::Abs)
    } else if t == "power"@ || t == "pow"@ {
        Some(Function::Power)
    } else if t == "sqrt"@ {
        Some(Function::Sqrt)
    } else if t == "log"@ {
        Some(Function::Log)
    } else if t == "ln"@ {
        Some(Function::Ln)
    } else if t == "exp"@ {
        Some(Function::Exp)
    } else if t == "least"@ {
        Some(Function::Least)
    } else if t == "greatest"@ {
        Some(Function::Greatest)
    } else if t == "pi"@ {
        Some(Function::Pi)
    } else if t == "floor"@ {
        Some(Function::Floor)
    } else if t == "ceil"@ || t == "ceiling"@ {
        Some(Function::Ceil)
    } else if t == "round"@ {
        Some(Function::Round)
    } else if t == "contains_japanese"@ || t == "japanese"@ {
        Some(Function::ContainsJapanese)
    } else if t == "contains_hiragana"@ || t == "hiragana"@ {
        Some(Function::ContainsHiragana)
    } else if t == "contains_katakana"@ || t == "katakana"@ {
        Some(Function::ContainsKatakana)
    } else if t == "contains_kana"@ || t == "kana"@ {
        Some(Function::ContainsKana)
    } else if t == "contains_kanji"@ || t == "kanji"@ {
        Some(Function::ContainsKanji)
    } else if t == "contains_greek"@ || t == "greek"@ {
        Some(Function::ContainsGreek)
    } else if t == "format_size"@ || t == "format_filesize"@ {
        Some(Function::FormatSize)
    } else if t == "format_time"@ || t == "pretty_time"@ {
        Some(Function::FormatTime)
    } else if t == "current_date"@ || t == "cur_date"@ || t == "curdate"@ {
        Some(Function::CurrentDate)
    } else if t == "current_time"@ || t == "cur_time"@ || t == "curtime"@ {
        Some(Function::CurrentTime)
    } else if t == "current_timestamp"@ || t == "now"@ {
        Some(Function::CurrentTimestamp)
    } else if t == "day"@ {
        Some(Function::Day)
    } else if t == "month"@ {
        Some(Function::Month)
    } else if t == "year"@ {
        Some(Function::Year)
    } else if t == "dayofweek"@ || t == "dow"@ {
        Some(Function::DayOfWeek)
    } else if t == "current_uid"@ {
        Some(Function::CurrentUid)
    } else if t == "current_user"@ {
        Some(Function::CurrentUser)
    } else if t == "current_gid"@ {
        Some(Function::CurrentGid)
    } else if t == "current_group"@ {
        Some(Function::CurrentGroup)
    } else if t == "contains"@ {
        Some(Function::Contains)
    } else if t == "has_xattr"@ {
        Some(Function::HasXattr)
    } else if t == "xattr"@ {
        Some(Function::Xattr)
    } else if t == "has_extattr"@ {
        Some(Function::HasExtattr)
    } else if t == "acl"@ {
        Some(Function::Acl)
    } else if t == "has_acl_entry"@ {
        Some(Function::HasAclEntry)
    } else if t == "acl_entry"@ {
        Some(Function::AclEntry)
    } else if t == "default_acl"@ {
        Some(Function::DefaultAcl)
    } else if t == "has_default_acl_entry"@ {
        Some(Function::HasDefaultAclEntry)
    } else if t == "default_acl_entry"@ {
        Some(Function::DefaultAclEntry)
    } else if t == "has_capabilities"@ || t == "has_caps"@ {
        Some(Function::HasCapabilities)
    } else if t == "has_capability"@ || t == "has_cap"@ {
        Some(Function::HasCapability)
    } else if t == "coalesce"@ {
        Some(Function::Coalesce)
    } else if t == "rand"@ || t == "random"@ {
        Some(Function::Random)
    } else if t == "min"@ {
        Some(Function::Min)
    } else if t == "max"@ {
        Some(Function::Max)
    } else if t == "avg"@ {
        Some(Function::Avg)
    } else if t == "sum"@ {
        Some(Function::Sum)
    } else if t == "count"@ {
        Some(Function::Count)
    } else if t == "stddev_pop"@ || t == "stddev"@ || t == "std"@ {
        Some(Function::StdDevPop)
    } else if t == "stddev_samp"@ {
        Some(Function::StdDevSamp)
    } else if t == "var_pop"@ || t == "variance"@ {
        Some(Function::VarPop)
    } else if t == "var_samp"@ {
        Some(Function::VarSamp)
    } else {
        None
    }
}

fn function_from_lower(t: &str) -> (r: Option<Function>)
    ensures
        r == spec_function_from_lower(t@),
{
    if str_eq(t, "lower") || str_eq(t, "lowercase") || str_eq(t, "lcase") {
        Some(Function::Lower)
    } else if str_eq(t, "upper") || str_eq(t, "uppercase") || str_eq(t, "ucase") {
        Some(Function::Upper)
    } else if str_eq(t, "initcap") {
        Some(Function::InitCap)
    } else if str_eq(t, "length") || str_eq(t, "len") {
        Some(Function::Length)
    } else if str_eq(t, "to_base64") || str_eq(t, "base64") {
        Some(Function::ToBase64)
    } else if str_eq(t, "from_base64") {
        Some(Function::FromBase64)
    } else if str_eq(t, "concat") {
        Some(Function::Concat)
    } else if str_eq(t, "concat_ws") {
        Some(Function::ConcatWs)
    } else if str_eq(t, "locate") || str_eq(t, "position") {
        Some(Function::Locate)
    } else if str_eq(t, "substr") || str_eq(t, "substring") {
        Some(Function::Substring)
    } else if str_eq(t, "replace") {
        Some(Function::Replace)
    } else if str_eq(t, "trim") {
        Some(Function::Trim)
    } else if str_eq(t, "ltrim") {
        Some(Function::LTrim)
    } else if str_eq(t, "rtrim") {
        Some(Function::RTrim)
    } else if str_eq(t, "bin") {
        Some(Function::Bin)
    } else if str_eq(t, "hex") {
        Some(Function::Hex)
    } else if str_eq(t, "oct") {
        Some(Function::Oct)
    } else if str_eq(t, "abs") {
        Some(Function::Abs)
    } else if str_eq(t, "power") || str_eq(t, "pow") {
        Some(Function::Power)
    } else if str_eq(t, "sqrt") {
        Some(Function::Sqrt)
    } else if str_eq(t, "log") {
        Some(Function::Log)
    } else if str_eq(t, "ln") {
        Some(Function::Ln)
    } else if str_eq(t, "exp") {
        Some(Function::Exp)
    } else if str_eq(t, "least") {
        Some(Function::Least)
    } else if str_eq(t, "greatest") {
        Some(Function::Greatest)
    } else if str_eq(t, "pi") {
        Some(Function::Pi)
    } else if str_eq(t, "floor") {
        Some(Function::Floor)
    } else if str_eq(t, "ceil") || str_eq(t, "ceiling") {
        Some(Function::Ceil)
    } else if str_eq(t, "round") {
        Some(Function::Round)
    } else if str_eq(t, "contains_japanese") || str_eq(t, "japanese") {
        Some(Function::ContainsJapanese)
    } else if str_eq(t, "contains_hiragana") || str_eq(t, "hiragana") {
        Some(Function::ContainsHiragana)
    } else if str_eq(t, "contains_katakana") || str_eq(t, "katakana") {
        Some(Function::ContainsKatakana)
    } else if str_eq(t, "contains_kana") || str_eq(t, "kana") {
        Some(Function::ContainsKana)
    } else if str_eq(t, "contains_kanji") || str_eq(t, "kanji") {
        Some(Function::ContainsKanji)
    } else if str_eq(t, "contains_greek") || str_eq(t, "greek") {
        Some(Function::ContainsGreek)
    } else if str_eq(t, "format_size") || str_eq(t, "format_filesize") {
        Some(Function::FormatSize)
    } else if str_eq(t, "format_time") || str_eq(t, "pretty_time") {
        Some(Function::FormatTime)
    } else if str_eq(t, "current_date") || str_eq(t, "cur_date") || str_eq(t, "curdate") {
        Some(Function::CurrentDate)
    } else if str_eq(t, "current_time") || str_eq(t, "cur_time") || str_eq(t, "curtime") {
        Some(Function::CurrentTime)
    } else if str_eq(t, "current_timestamp") || str_eq(t, "now") {
        Some(Function::CurrentTimestamp)
    } else if str_eq(t, "day") {
        Some(Function::Day)
    } else if str_eq(t, "month") {
        Some(Function::Month)
    } else if str_eq(t, "year") {
        Some(Function::Year)
    } else if str_eq(t, "dayofweek") || str_eq(t, "dow") {
        Some(Function::DayOfWeek)
    } else if str_eq(t, "current_uid") {
        Some(Function::CurrentUid)
    } else if str_eq(t, "current_user") {
        Some(Function::CurrentUser)
    } else if str_eq(t, "current_gid") {
        Some(Function::CurrentGid)
    } else if str_eq(t, "current_group") {
        Some(Function::CurrentGroup)
    } else if str_eq(t, "contains") {
        Some(Function::Contains)
    } else if str_eq(t, "has_xattr") {
        Some(Function::HasXattr)
    } else if str_eq(t, "xattr") {
        Some(Function::Xattr)
    } else if str_eq(t, "has_extattr") {
        Some(Function::HasExtattr)
    } else if str_eq(t, "acl") {
        Some(Function::Acl)
    } else if str_eq(t, "has_acl_entry") {
        Some(Function::HasAclEntry)
    } else if str_eq(t, "acl_entry") {
        Some(Function::AclEntry)
    } else if str_eq(t, "default_acl") {
        Some(Function::DefaultAcl)
    } else if str_eq(t, "has_default_acl_entry") {
        Some(Function::HasDefaultAclEntry)
    } else if str_eq(t, "default_acl_entry") {
        Some(Function::DefaultAclEntry)
    } else if str_eq(t, "has_capabilities") || str_eq(t, "has_caps") {
        Some(Function::HasCapabilities)
    } else if str_eq(t, "has_capability") || str_eq(t, "has_cap") {
        Some(Function::HasCapability)
    } else if str_eq(t, "coalesce") {
        Some(Function::Coalesce)
    } else if str_eq(t, "rand") || str_eq(t, "random") {
        Some(Function::Random)
    } else if str_eq(t, "min") {
        Some(Function::Min)
    } else if str_eq(t, "max") {
        Some(Function::Max)
    } else if str_eq(t, "avg") {
        Some(Function::Avg)
    } else if str_eq(t, "sum") {
        Some(Function::Sum)
    } else if str_eq(t, "count") {
        Some(Function::Count)
    } else if str_eq(t, "stddev_pop") || str_eq(t, "stddev") || str_eq(t, "std") {
        Some(Function::StdDevPop)
    } else if str_eq(t, "stddev_samp") {
        Some(Function::StdDevSamp)
    } else if str_eq(t, "var_pop") || str_eq(t, "variance") {
        Some(Function::VarPop)
    } else if str_eq(t, "var_samp") {
        Some(Function::VarSamp)
    } else {
        None
    }
}

/// What reading a function's name gives: the function, or the message
/// naming the unknown (lower-cased) spelling.
pub open spec fn spec_function_from_str(s: Seq<char>) -> Result<Function, Seq<char>> {
    match spec_function_from_lower(ascii_lower(s)) {
        Some(f) => Ok(f),
        None => Err("Unknown function "@ + ascii_lower(s)),
    }
}

impl Function {

    pub open spec fn spec_is_numeric(self) -> bool {
        self is Length || self is Locate || self is Abs || self is Power || self is Sqrt || self is Log || self is Ln || self is Exp || self is Least || self is Greatest || self is Pi || self is Floor || self is Ceil || self is Round || self is Day || self is Month || self is Year || self is DayOfWeek || self is CurrentUid || self is CurrentGid || self is Random || self is Min || self is Max || self is Avg || self is Sum || self is Count || self is StdDevPop || self is StdDevSamp || self is VarPop || self is VarSamp
    }

    /// Whether the function gives a number.
    pub fn is_numeric_function(&self) -> (r: bool)
        ensures
            r == self.spec_is_numeric(),
    {
        match self {
            Function::Length
            | Function::Locate
            | Function::Abs
            | Function::Power
            | Function::Sqrt
            | Function::Log
            | Function::Ln
            | Function::Exp
            | Function::Least
            | Function::Greatest
            | Function::Pi
            | Function::Floor
            | Function::Ceil
            | Function::Round
            | Function::Day
            | Function::Month
            | Function::Year
            | Function::DayOfWeek
            | Function::CurrentUid
            | Function::CurrentGid
            | Function::Random
            | Function::Min
            | Function::Max
            | Function::Avg
            | Function::Sum
            | Function::Count
            | Function::StdDevPop
            | Function::StdDevSamp
            | Function::VarPop
            | Function::VarSamp => true,
            _ => false,
        }
    }

    pub open spec fn spec_is_boolean(self) -> bool {
        self is ContainsJapanese || self is ContainsHiragana || self is ContainsKatakana || self is ContainsKana || self is ContainsKanji || self is ContainsGreek || self is Contains || self is HasXattr || self is HasExtattr || self is HasAclEntry || self is HasDefaultAclEntry || self is HasCapabilities || self is HasCapability
    }

    /// Whether the function gives a boolean.
    pub fn is_boolean_function(&self) -> (r: bool)
        ensures
            r == self.spec_is_boolean(),
    {
        match self {
            Function::ContainsJapanese
            | Function::ContainsHiragana
            | Function::ContainsKatakana
            | Function::ContainsKana
            | Function::ContainsKanji
            | Function::ContainsGreek
            | Function::Contains
            | Function::HasXattr
            | Function::HasExtattr
            | Function::HasAclEntry
            | Function::HasDefaultAclEntry
            | Function::HasCapabilities
            | Function::HasCapability => true,
            _ => false,
        }
    }

    pub open spec fn spec_is_aggregate(self) -> bool {
        self is Min || self is Max || self is Avg || self is Sum || self is Count || self is StdDevPop || self is StdDevSamp || self is VarPop || self is VarSamp
    }

    /// Whether the function folds the values of many files into one.
    pub fn is_aggregate_function(&self) -> (r: bool)
        ensures
            r == self.spec_is_aggregate(),
    {
        match self {
            Function::Min
            | Function::Max
            | Function::Avg
            | Function::Sum
            | Function::Count
            | Function::StdDevPop
            | Function::StdDevSamp
            | Function::VarPop
            | Function::VarSamp => true,
            _ => false,
        }
    }

    pub open spec fn spec_weight(self) -> i32 {
        match self {
            Function::Pi | Function::CurrentDate | Function::CurrentTime | Function::CurrentTimestamp | Function::CurrentUid | Function::CurrentUser | Function::CurrentGid | Function::CurrentGroup | Function::Random => 1,
            Function::HasXattr | Function::Xattr | Function::HasExtattr | Function::Acl | Function::HasAclEntry | Function::AclEntry | Function::DefaultAcl | Function::HasDefaultAclEntry | Function::DefaultAclEntry | Function::HasCapabilities | Function::HasCapability => 2,
            Function::Contains => 1024,
            _ => 0,
        }
    }

    /// The relative cost of computing the value, used to order the branches of a condition.
    pub fn get_weight(&self) -> (r: i32)
        ensures
            r == self.spec_weight(),
    {
        match self {
            Function::Pi
            | Function::CurrentDate
            | Function::CurrentTime
            | Function::CurrentTimestamp
            | Function::CurrentUid
            | Function::CurrentUser
            | Function::CurrentGid
            | Function::CurrentGroup
            | Function::Random => 1,
            Function::HasXattr
            | Function::Xattr
            | Function::HasExtattr
            | Function::Acl
            | Function::HasAclEntry
            | Function::AclEntry
            | Function::DefaultAcl
            | Function::HasDefaultAclEntry
            | Function::DefaultAclEntry
            | Function::HasCapabilities
            | Function::HasCapability => 2,
            Function::Contains => 1024,
            _ => 0,
        }
    }

    /// The variant's name, as the value is printed.
    pub open spec fn spec_name(self) -> Seq<char> {
        match self {
            Function::Lower => "Lower"@,
            Function::Upper => "Upper"@,
            Function::InitCap => "InitCap"@,
            Function::Length => "Length"@,
            Function::ToBase64 => "ToBase64"@,
            Function::FromBase64 => "FromBase64"@,
            Function::Concat => "Concat"@,
            Function::ConcatWs => "ConcatWs"@,
            Function::Locate => "Locate"@,
            Function::Substring => "Substring"@,
            Function::Replace => "Replace"@,
            Function::Trim => "Trim"@,
            Function::LTrim => "LTrim"@,
            Function::RTrim => "RTrim"@,
            Function::Bin => "Bin"@,
            Function::Hex => "Hex"@,
            Function::Oct => "Oct"@,
            Function::Abs => "Abs"@,
            Function::Power => "Power"@,
            Function::Sqrt => "Sqrt"@,
            Function::Log => "Log"@,
            Function::Ln => "Ln"@,
            Function::Exp => "Exp"@,
            Function::Least => "Least"@,
            Function::Greatest => "Greatest"@,
            Function::Pi => "Pi"@,
            Function::Floor => "Floor"@,
            Function::Ceil => "Ceil"@,
            Function::Round => "Round"@,
            Function::ContainsJapanese => "ContainsJapanese"@,
            Function::ContainsHiragana => "ContainsHiragana"@,
            Function::ContainsKatakana => "ContainsKatakana"@,
            Function::ContainsKana => "ContainsKana"@,
            Function::ContainsKanji => "ContainsKanji"@,
            Function::ContainsGreek => "ContainsGreek"@,
            Function::FormatSize => "FormatSize"@,
            Function::FormatTime => "FormatTime"@,
            Function::CurrentDate => "CurrentDate"@,
            Function::CurrentTime => "CurrentTime"@,
            Function::CurrentTimestamp => "CurrentTimestamp"@,
            Function::Day => "Day"@,
            Function::Month => "Month"@,
            Function::Year => "Year"@,
            Function::DayOfWeek => "DayOfWeek"@,
            Function::CurrentUid => "CurrentUid"@,
            Function::CurrentUser => "CurrentUser"@,
            Function::CurrentGid => "CurrentGid"@,
            Function::CurrentGroup => "CurrentGroup"@,
            Function::Contains => "Contains"@,
            Function::HasXattr => "HasXattr"@,
            Function::Xattr => "Xattr"@,
            Function::HasExtattr => "HasExtattr"@,
            Function::Acl => "Acl"@,
            Function::HasAclEntry => "HasAclEntry"@,
            Function::AclEntry => "AclEntry"@,
            Function::DefaultAcl => "DefaultAcl"@,
            Function::HasDefaultAclEntry => "HasDefaultAclEntry"@,
            Function::DefaultAclEntry => "DefaultAclEntry"@,
            Function::HasCapabilities => "HasCapabilities"@,
            Function::HasCapability => "HasCapability"@,
            Function::Coalesce => "Coalesce"@,
            Function::Random => "Random"@,
            Function::Min => "Min"@,
            Function::Max => "Max"@,
            Function::Avg => "Avg"@,
            Function::Sum => "Sum"@,
            Function::Count => "Count"@,
            Function::StdDevPop => "StdDevPop"@,
            Function::StdDevSamp => "StdDevSamp"@,
            Function::VarPop => "VarPop"@,
            Function::VarSamp => "VarSamp"@,
        }
    }

    /// The variant's name, as the value is printed.
    pub fn name(&self) -> (r: &'static str)
        ensures
            r@ == self.spec_name(),
    {
        match self {
            Function::Lower => "Lower",
            Function::Upper => "Upper",
            Function::InitCap => "InitCap",
            Function::Length => "Length",
            Function::ToBase64 => "ToBase64",
            Function::FromBase64 => "FromBase64",
            Function::Concat => "Concat",
            Function::ConcatWs => "ConcatWs",
            Function::Locate => "Locate",
            Function::Substring => "Substring",
            Function::Replace => "Replace",
            Function::Trim => "Trim",
            Function::LTrim => "LTrim",
            Function::RTrim => "RTrim",
            Function::Bin => "Bin",
            Function::Hex => "Hex",
            Function::Oct => "Oct",
            Function::Abs => "Abs",
            Function::Power => "Power",
            Function::Sqrt => "Sqrt",
            Function::Log => "Log",
            Function::Ln => "Ln",
            Function::Exp => "Exp",
            Function::Least => "Least",
            Function::Greatest => "Greatest",
            Function::Pi => "Pi",
            Function::Floor => "Floor",
            Function::Ceil => "Ceil",
            Function::Round => "Round",
            Function::ContainsJapanese => "ContainsJapanese",
            Function::ContainsHiragana => "ContainsHiragana",
            Function::ContainsKatakana => "ContainsKatakana",
            Function::ContainsKana => "ContainsKana",
            Function::ContainsKanji => "ContainsKanji",
            Function::ContainsGreek => "ContainsGreek",
            Function::FormatSize => "FormatSize",
            Function::FormatTime => "FormatTime",
            Function::CurrentDate => "CurrentDate",
            Function::CurrentTime => "CurrentTime",
            Function::CurrentTimestamp => "CurrentTimestamp",
            Function::Day => "Day",
            Function::Month => "Month",
            Function::Year => "Year",
            Function::DayOfWeek => "DayOfWeek",
            Function::CurrentUid => "CurrentUid",
            Function::CurrentUser => "CurrentUser",
            Function::CurrentGid => "CurrentGid",
            Function::CurrentGroup => "CurrentGroup",
            Function::Contains => "Contains",
            Function::HasXattr => "HasXattr",
            Function::Xattr => "Xattr",
            Function::HasExtattr => "HasExtattr",
            Function::Acl => "Acl",
            Function::HasAclEntry => "HasAclEntry",
            Function::AclEntry => "AclEntry",
            Function::DefaultAcl => "DefaultAcl",
            Function::HasDefaultAclEntry => "HasDefaultAclEntry",
            Function::DefaultAclEntry => "DefaultAclEntry",
            Function::HasCapabilities => "HasCapabilities",
            Function::HasCapability => "HasCapability",
            Function::Coalesce => "Coalesce",
            Function::Random => "Random",
            Function::Min => "Min",
            Function::Max => "Max",
            Function::Avg => "Avg",
            Function::Sum => "Sum",
            Function::Count => "Count",
            Function::StdDevPop => "StdDevPop",
            Function::StdDevSamp => "StdDevSamp",
            Function::VarPop => "VarPop",
            Function::VarSamp => "VarSamp",
        }
    }

    /// Reads a function's name, without regard to ASCII case.
    pub fn parse_name(s: &str) -> (r: Result<Function, String>)
        ensures
            match r {
                Ok(f) => spec_function_from_str(s@) == Ok::<Function, Seq<char>>(f),
                Err(e) => spec_function_from_str(s@) == Err::<Function, Seq<char>>(e@),
            },
    {
        let lower = to_ascii_lowercase(s);
        match function_from_lower(lower.as_str()) {
            Some(f) => Ok(f),
            None => {
                let mut msg = str_to_string("Unknown function ");
                push_str(&mut msg, lower.as_str());
                Err(msg)
            },
        }
    }
}

impl std::str::FromStr for Function {
    type Err = String;

    fn from_str(s: &str) -> (r: Result<Self, Self::Err>)
        ensures
            match r {
                Ok(f) => spec_function_from_str(s@) == Ok::<Function, Seq<char>>(f),
                Err(e) => spec_function_from_str(s@) == Err::<Function, Seq<char>>(e@),
            },
    {
        Function::parse_name(s)
    }
}

/// What a function gives back: a text, a number, a truth value, or no
/// value.
#[derive(Debug, Clone, PartialEq, Eq)]
pub enum FunctionValue {
    Str(String),
    Int(i64),
    Bool(bool),
    Empty,
}

/// A function's value as the contracts see it.
pub enum ValueView {
    Str(Seq<char>),
    Int(i64),
    Bool(bool),
    Empty,
}

impl View for FunctionValue {
    type V = ValueView;

    open spec fn view(&self) -> ValueView {
        match self {
            FunctionValue::Str(s) => ValueView::Str(s@),
            FunctionValue::Int(v) => ValueView::Int(*v),
            FunctionValue::Bool(b) => ValueView::Bool(*b),
            FunctionValue::Empty => ValueView::Empty,
        }
    }
}

/// A function's outcome as the contracts see it.
pub open spec fn outcome_view(r: Result<FunctionValue, String>) -> Result<ValueView, Seq<char>> {
    match r {
        Ok(v) => Ok(v@),
        Err(e) => Err(e@),
    }
}

/// How a value is written out: a text as it is, a number in decimal, a
/// truth value as `true` or `false`, no value as the empty text.
pub open spec fn value_text(v: ValueView) -> Seq<char> {
    match v {
        ValueView::Str(s) => s,
        ValueView::Int(n) => int_text(n),
        ValueView::Bool(b) => if b {
            "true"@
        } else {
            "false"@
        },
        ValueView::Empty => Seq::empty(),
    }
}

/// A value read as a truth value: a truth value as it is, a text when it
/// is `true`, a number when it is not zero; no value is false.
pub open spec fn value_bool(v: ValueView) -> bool {
    match v {
        ValueView::Str(s) => s == "true"@,
        ValueView::Int(n) => n != 0,
        ValueView::Bool(b) => b,
        ValueView::Empty => false,
    }
}

/// A value read as a number: a number as it is, a text by `str::parse`
/// (0 when it is no number), a truth value as 1 or 0, no value as 0.
pub open spec fn value_int(v: ValueView) -> i64 {
    match v {
        ValueView::Str(s) => match spec_parse_i64(s) {
            Some(n) => n,
            None => 0,
        },
        ValueView::Int(n) => n,
        ValueView::Bool(b) => if b {
            1
        } else {
            0
        },
        ValueView::Empty => 0,
    }
}

impl FunctionValue {
    /// The value written out (see `value_text`).
    pub fn to_string(&self) -> (r: String)
        ensures
            r@ == value_text(self@),
    {
        match self {
            FunctionValue::Str(s) => str_to_string(s.as_str()),
            FunctionValue::Int(v) => i64_to_string(*v),
            FunctionValue::Bool(b) => if *b {
                proof {
                    reveal_strlit("true");
                }
                str_to_string("true")
            } else {
                proof {
                    reveal_strlit("false");
                }
                str_to_string("false")
            },
            FunctionValue::Empty => String::new(),
        }
    }

    /// The value read as a truth value (see `value_bool`).
    pub fn to_bool(&self) -> (r: bool)
        ensures
            r == value_bool(self@),
    {
        match self {
            FunctionValue::Str(s) => {
                proof {
                    reveal_strlit("true");
                }
                str_eq(s.as_str(), "true")
            },
            FunctionValue::Int(v) => *v != 0,
            FunctionValue::Bool(b) => *b,
            FunctionValue::Empty => false,
        }
    }

    /// The value read as a number (see `value_int`).
    pub fn to_int(&self) -> (r: i64)
        ensures
            r == value_int(self@),
    {
        match self {
            FunctionValue::Str(s) => match parse_i64(s.as_str()) {
                Some(n) => n,
                None => 0,
            },
            FunctionValue::Int(v) => *v,
            FunctionValue::Bool(b) => if *b {
                1
            } else {
                0
            },
            FunctionValue::Empty => 0,
        }
    }
}

/// Whether a character separates words for INITCAP: white space, `-` or
/// `_`.
pub open spec fn is_word_break(c: char) -> bool {
    unicode_white_space(c) || c == '-' || c == '_'
}

/// The text with the first character of each word (the first of the
/// text, and each one after a word break) in upper case, as
/// `str::to_uppercase` gives it; the other characters as they are.
pub open spec fn spec_initcap(s: Seq<char>) -> Seq<char>
    decreases s.len(),
{
    if s.len() == 0 {
        Seq::empty()
    } else {
        let c = s.last();
        let head = spec_initcap(s.drop_last());
        if s.len() == 1 || is_word_break(s[s.len() - 2]) {
            head + unicode_uppercase(seq![c])
        } else {
            head.push(c)
        }
    }
}

/// The text with the initial of each word in upper case (see
/// `spec_initcap`).
pub fn initcap(s: &str) -> (r: String)
    ensures
        r@ == spec_initcap(s@),
{
    let n = s.unicode_len();
    let mut out = String::new();
    let mut i: usize = 0;
    while i < n
        invariant
            n == s@.len(),
            i <= n,
            out@ == spec_initcap(s@.take(i as int)),
        decreases n - i,
    {
        let c = s.get_char(i);
        let ghost t = s@.take(i + 1);
        assert(t.drop_last() =~= s@.take(i as int));
        assert(t.last() == c);
        let starts = if i == 0 {
            true
        } else {
            let b = s.get_char(i - 1);
            assert(t[t.len() - 2] == b);
            is_whitespace(b) || b == '-' || b == '_'
        };
        if starts {
            let mut one = String::new();
            push_char(&mut one, c);
            assert(one@ =~= seq![c]);
            let up = to_uppercase(one.as_str());
            push_str(&mut out, up.as_str());
        } else {
            push_char(&mut out, c);
        }
        i = i + 1;
    }
    assert(s@.take(n as int) =~= s@);
    out
}

/// The scripts whose characters the string functions look for.
#[derive(Clone, Copy, PartialEq, Eq, Structural)]
pub enum Script {
    Hiragana,
    Katakana,
    Kana,
    Kanji,
    Japanese,
    Greek,
}

/// Whether a character belongs to a script: Hiragana U+3040 to U+309F,
/// Katakana U+30A0 to U+30FF and U+31F0 to U+31FF, Kana either of them,
/// Kanji the CJK unified ideographs U+4E00 to U+9FFF and U+3400 to U+4DBF,
/// Japanese any of these, Greek U+0370 to U+03FF and U+1F00 to U+1FFF.
pub open spec fn in_script(c: char, script: Script) -> bool {
    let u = c as u32;
    let hiragana = 0x3040 <= u <= 0x309f;
    let katakana = (0x30a0 <= u <= 0x30ff) || (0x31f0 <= u <= 0x31ff);
    let kanji = (0x4e00 <= u <= 0x9fff) || (0x3400 <= u <= 0x4dbf);
    match script {
        Script::Hiragana => hiragana,
        Script::Katakana => katakana,
        Script::Kana => hiragana || katakana,
        Script::Kanji => kanji,
        Script::Japanese => hiragana || katakana || kanji,
        Script::Greek => (0x370 <= u <= 0x3ff) || (0x1f00 <= u <= 0x1fff),
    }
}

/// Whether a character belongs to a script (see `in_script`).
pub fn char_in_script(c: char, script: Script) -> (r: bool)
    ensures
        r == in_script(c, script),
{
    let u = c as u32;
    let hiragana = 0x3040 <= u && u <= 0x309f;
    let katakana = (0x30a0 <= u && u <= 0x30ff) || (0x31f0 <= u && u <= 0x31ff);
    let kanji = (0x4e00 <= u && u <= 0x9fff) || (0x3400 <= u && u <= 0x4dbf);
    match script {
        Script::Hiragana => hiragana,
        Script::Katakana => katakana,
        Script::Kana => hiragana || katakana,
        Script::Kanji => kanji,
        Script::Japanese => hiragana || katakana || kanji,
        Script::Greek => (0x370 <= u && u <= 0x3ff) || (0x1f00 <= u && u <= 0x1fff),
    }
}

/// Whether the text holds a character of the script.
pub open spec fn has_script(s: Seq<char>, script: Script) -> bool {
    exists|i: int| 0 <= i < s.len() && in_script(#[trigger] s[i], script)
}

/// Whether the text holds a character of the script (see `has_script`).
pub fn contains_script(s: &str, script: Script) -> (r: bool)
    ensures
        r == has_script(s@, script),
{
    let n = s.unicode_len();
    let mut i: usize = 0;
    while i < n
        invariant
            n == s@.len(),
            i <= n,
            forall|j: int| 0 <= j < i ==> !in_script(#[trigger] s@[j], script),
        decreases n - i,
    {
        if char_in_script(s.get_char(i), script) {
            return true;
        }
        i = i + 1;
    }
    false
}

/// The base64 encoding of the UTF-8 bytes of a text, as `rbase64::encode`
/// writes it.
pub uninterp spec fn base64_encoding(s: Seq<char>) -> Seq<char>;

/// The bytes that `rbase64::decode` reads from a text (none when it is no
/// base64), taken as UTF-8 with invalid sequences replaced.
pub uninterp spec fn base64_decoded_text(s: Seq<char>) -> Seq<char>;

/// Calls `rbase64::encode` on the UTF-8 bytes of `s`; the result is named by
/// `base64_encoding` (the encoding tables are not restated).
#[verifier::external_body]
fn to_base64(s: &str) -> (r: String)
    ensures
        r@ == base64_encoding(s@),
{
    rbase64::encode(s.as_bytes())
}

/// Calls `rbase64::decode`, takes an error as no bytes, and reads the bytes
/// with `String::from_utf8_lossy`; the result is named by
/// `base64_decoded_text`.
#[verifier::external_body]
fn from_base64(s: &str) -> (r: String)
    ensures
        r@ == base64_decoded_text(s@),
{
    String::from_utf8_lossy(&rbase64::decode(s).unwrap_or_default()).to_string()
}

/// A count and its unit, as one part of a written duration; no part for a
/// count of zero.
pub open spec fn duration_part(n: nat, unit: Seq<char>) -> Seq<Seq<char>> {
    if n > 0 {
        seq![radix_text(n, 10) + unit]
    } else {
        Seq::empty()
    }
}

/// A whole number of seconds written in days, hours, minutes and seconds,
/// leaving out the units whose count is zero, separated by commas; `0μs`
/// for no time at all (as `human_time` writes a `Duration`).
pub open spec fn human_time_text(secs: nat) -> Seq<char> {
    let parts = duration_part(secs / 86400, "d"@) + duration_part(secs % 86400 / 3600, "h"@)
        + duration_part(secs % 3600 / 60, "m"@) + duration_part(secs % 60, "s"@);
    if parts.len() == 0 {
        "0μs"@
    } else {
        join_with(parts, ","@)
    }
}

/// Calls `human_time::ToHumanTimeString::to_human_time_string` on a whole
/// number of seconds. Its source counts days, hours, minutes, seconds,
/// milliseconds and microseconds, writes each count that is not zero
/// followed by its unit, joins them with commas, and writes `0μs` when all
/// are zero; for whole seconds the last two counts are zero.
#[verifier::external_body]
fn human_time(secs: u64) -> (r: String)
    ensures
        r@ == human_time_text(secs as nat),
{
    std::time::Duration::from_secs(secs).to_human_time_string()
}

/// Calls `rand::RngExt::random_range` on the thread's generator over
/// `lo..=hi`, which panics only on an empty range; the number lies in it.
#[verifier::external_body]
fn random_in(lo: i64, hi: i64) -> (r: i64)
    requires
        lo <= hi,
    ensures
        lo <= r <= hi,
{
    rand::rng().random_range(lo..=hi)
}

/// Calls `uzers::get_current_uid`. Nothing is stated of the result: it is
/// the process's user.
#[verifier::external_body]
fn current_uid() -> (r: u32) {
    uzers::get_current_uid()
}

/// Calls `uzers::get_current_gid`. Nothing is stated of the result: it is
/// the process's group.
#[verifier::external_body]
fn current_gid() -> (r: u32) {
    uzers::get_current_gid()
}

/// Calls `uzers::get_current_username`, keeping a name that is valid
/// Unicode. Nothing is stated of the result: it depends on the machine.
#[verifier::external_body]
fn current_username() -> (r: Option<String>) {
    uzers::get_current_username().and_then(|u| u.into_string().ok())
}

/// Calls `uzers::get_current_groupname`, keeping a name that is valid
/// Unicode. Nothing is stated of the result: it depends on the machine.
#[verifier::external_body]
fn current_groupname() -> (r: Option<String>) {
    uzers::get_current_groupname().and_then(|u| u.into_string().ok())
}

/// The functions whose value follows from their arguments alone.
pub open spec fn spec_computes_value(f: Function) -> bool {
    match f {
        Function::Lower | Function::Upper | Function::Length | Function::ToBase64
        | Function::FromBase64 | Function::Concat | Function::ConcatWs | Function::Locate
        | Function::Substring | Function::Replace | Function::Trim | Function::LTrim
        | Function::RTrim | Function::Bin | Function::Hex | Function::Oct | Function::FormatTime
        | Function::Coalesce | Function::InitCap | Function::ContainsJapanese | Function::ContainsHiragana
        | Function::ContainsKatakana | Function::ContainsKana | Function::ContainsKanji
        | Function::ContainsGreek => true,
        _ => f.spec_is_aggregate(),
    }
}

/// The functions whose value depends on chance or on the process's user.
pub open spec fn spec_value_varies(f: Function) -> bool {
    match f {
        Function::Random | Function::CurrentUid | Function::CurrentUser | Function::CurrentGid
        | Function::CurrentGroup => true,
        _ => false,
    }
}

/// The position from which LOCATE searches: its second argument less one,
/// and not below zero.
pub open spec fn locate_start(args: Seq<Seq<char>>) -> Result<int, Seq<char>> {
    if args.len() > 1 {
        match spec_parse_i32(args[1]) {
            Some(p) => Ok(
                if p >= 1 {
                    p - 1
                } else {
                    0
                },
            ),
            None => Err("Could not parse position argument of LOCATE function: "@ + args[1]),
        }
    } else {
        Ok(0)
    }
}

/// LOCATE: the position (from 1) of the first occurrence of the first
/// argument in the text, searched from the position that the second
/// argument gives; 0 when there is none.
pub open spec fn spec_locate(a: Seq<char>, args: Seq<Seq<char>>) -> Result<ValueView, Seq<char>> {
    if args.len() == 0 {
        Err("LOCATE requires a search substring argument"@)
    } else {
        match locate_start(args) {
            Err(e) => Err(e),
            Ok(p) => if p > a.len() {
                Ok(ValueView::Int(0))
            } else {
                match spec_find(a.skip(p), args[0]) {
                    Some(i) => Ok(ValueView::Int((i + p + 1) as i64)),
                    None => Ok(ValueView::Int(0)),
                }
            },
        }
    }
}

/// The position from which SUBSTRING takes characters: its first argument
/// less one, or counted from the end when it is negative, and not below zero.
pub open spec fn substring_start(a: Seq<char>, args: Seq<Seq<char>>) -> Result<int, Seq<char>> {
    if args.len() == 0 {
        Ok(0)
    } else {
        match spec_parse_i32(args[0]) {
            Some(p) => Ok(
                if p < 0 {
                    if a.len() + p > 0 {
                        a.len() + p
                    } else {
                        0
                    }
                } else if p >= 1 {
                    p - 1
                } else {
                    0
                },
            ),
            None => Err("Could not parse position argument of SUBSTRING function: "@ + args[0]),
        }
    }
}

/// How many characters SUBSTRING takes: its second argument, or all.
pub open spec fn substring_count(args: Seq<Seq<char>>) -> Result<Option<usize>, Seq<char>> {
    if args.len() > 1 {
        match spec_parse_usize(args[1]) {
            Some(l) => Ok(Some(l)),
            None => Err("Could not parse length argument of SUBSTRING function: "@ + args[1]),
        }
    } else {
        Ok(None)
    }
}

/// SUBSTRING: the characters from the start position on, as many as the
/// count asks for and there are.
pub open spec fn spec_substring(a: Seq<char>, args: Seq<Seq<char>>) -> Result<ValueView, Seq<char>> {
    match substring_start(a, args) {
        Err(e) => Err(e),
        Ok(p) => match substring_count(args) {
            Err(e) => Err(e),
            Ok(count) => {
                let rest = if p <= a.len() {
                    a.skip(p)
                } else {
                    Seq::empty()
                };
                match count {
                    Some(l) => Ok(
                        ValueView::Str(
                            if l <= rest.len() {
                                rest.take(l as int)
                            } else {
                                rest
                            },
                        ),
                    ),
                    None => Ok(ValueView::Str(rest)),
                }
            },
        },
    }
}

/// REPLACE: every occurrence of the first argument replaced by the second;
/// the text as it is for an empty first argument.
pub open spec fn spec_replace(a: Seq<char>, args: Seq<Seq<char>>) -> Result<ValueView, Seq<char>> {
    if args.len() < 2 {
        Err("REPLACE requires two arguments: search string and replacement string"@)
    } else if args[0].len() == 0 {
        Ok(ValueView::Str(a))
    } else {
        Ok(ValueView::Str(replace_all(a, args[0], args[1])))
    }
}

/// BIN, OCT and HEX: a whole number written in the base, a negative one as
/// its 64-bit two's complement; no value for a text that is no number.
pub open spec fn spec_in_base(a: Seq<char>, base: nat) -> Result<ValueView, Seq<char>> {
    match spec_parse_i64(a) {
        Some(v) => Ok(ValueView::Str(radix_text((v as u64) as nat, base))),
        None => Ok(ValueView::Empty),
    }
}

/// The first argument, from `i` on, that is not empty.
pub open spec fn first_nonempty(args: Seq<Seq<char>>, i: int) -> Option<Seq<char>>
    decreases args.len() - i,
{
    if i < 0 || i >= args.len() {
        None
    } else if args[i].len() > 0 {
        Some(args[i])
    } else {
        first_nonempty(args, i + 1)
    }
}

/// COALESCE: the first text among the function's own and its arguments that
/// is not empty.
pub open spec fn spec_coalesce(a: Seq<char>, args: Seq<Seq<char>>) -> Result<ValueView, Seq<char>> {
    if a.len() > 0 {
        Ok(ValueView::Str(a))
    } else {
        match first_nonempty(args, 0) {
            Some(t) => Ok(ValueView::Str(t)),
            None => Ok(ValueView::Empty),
        }
    }
}

/// FORMAT_TIME: a number of seconds written as a duration; no value for a
/// text that is no such number.
pub open spec fn spec_format_time(a: Seq<char>) -> Result<ValueView, Seq<char>> {
    if a.len() == 0 {
        Ok(ValueView::Empty)
    } else {
        match spec_parse_u64(a) {
            Some(n) => Ok(ValueView::Str(human_time_text(n as nat))),
            None => Ok(ValueView::Empty),
        }
    }
}

/// The value of a function that follows from its text `a` and arguments
/// `args` alone; the aggregates have no value here.
pub open spec fn spec_get_value(f: Function, a: Seq<char>, args: Seq<Seq<char>>) -> Result<
    ValueView,
    Seq<char>,
> {
    match f {
        Function::Lower => Ok(ValueView::Str(unicode_lowercase(a))),
        Function::Upper => Ok(ValueView::Str(unicode_uppercase(a))),
        Function::Length => Ok(ValueView::Int(a.len() as i64)),
        Function::ToBase64 => Ok(ValueView::Str(base64_encoding(a))),
        Function::FromBase64 => Ok(ValueView::Str(base64_decoded_text(a))),
        Function::Concat => Ok(ValueView::Str(a + join_with(args, Seq::empty()))),
        Function::ConcatWs => Ok(ValueView::Str(join_with(args, a))),
        Function::Locate => spec_locate(a, args),
        Function::Substring => spec_substring(a, args),
        Function::Replace => spec_replace(a, args),
        Function::Trim => Ok(ValueView::Str(spec_trim(a))),
        Function::LTrim => Ok(ValueView::Str(spec_trim_start(a))),
        Function::RTrim => Ok(ValueView::Str(spec_trim_end(a))),
        Function::Bin => spec_in_base(a, 2),
        Function::Oct => spec_in_base(a, 8),
        Function::Hex => spec_in_base(a, 16),
        Function::FormatTime => spec_format_time(a),
        Function::Coalesce => spec_coalesce(a, args),
        Function::InitCap => Ok(ValueView::Str(spec_initcap(a))),
        Function::ContainsJapanese => Ok(ValueView::Bool(has_script(a, Script::Japanese))),
        Function::ContainsHiragana => Ok(ValueView::Bool(has_script(a, Script::Hiragana))),
        Function::ContainsKatakana => Ok(ValueView::Bool(has_script(a, Script::Katakana))),
        Function::ContainsKana => Ok(ValueView::Bool(has_script(a, Script::Kana))),
        Function::ContainsKanji => Ok(ValueView::Bool(has_script(a, Script::Kanji))),
        Function::ContainsGreek => Ok(ValueView::Bool(has_script(a, Script::Greek))),
        _ => Ok(ValueView::Empty),
    }
}

/// The range, both ends included, that RANDOM draws from: up to the
/// largest number without arguments, from 0 up to one argument (0 for one
/// that is not positive), between two arguments (the first when they are
/// not in order).
pub open spec fn random_bounds(a: Seq<char>, args: Seq<Seq<char>>) -> Result<(i64, i64), Seq<char>> {
    if a.len() == 0 {
        Ok((0, (i64::MAX - 1) as i64))
    } else {
        match spec_parse_i64(a) {
            None => Err("Could not parse an argument of RANDOM function: "@ + a),
            Some(v) => if args.len() == 0 {
                if v <= 0 {
                    Ok((0, 0))
                } else {
                    Ok((0, v))
                }
            } else {
                match spec_parse_i64(args[0]) {
                    None => Err("Could not parse limit argument of RANDOM function: "@ + args[0]),
                    Some(l) => if v >= l {
                        Ok((v, v))
                    } else {
                        Ok((v, l))
                    },
                }
            },
        }
    }
}

/// An error message: a fixed text followed by the argument it is about.
fn message_with(prefix: &str, arg: &str) -> (r: String)
    ensures
        r@ == prefix@ + arg@,
{
    let mut m = str_to_string(prefix);
    push_str(&mut m, arg);
    m
}

fn locate_value(a: &str, args: &Vec<String>) -> (r: Result<FunctionValue, String>)
    requires
        a@.len() < i64::MAX,
    ensures
        outcome_view(r) == spec_locate(a@, words(args@)),
{
    let ghost w = words(args@);
    if args.len() == 0 {
        return Err(str_to_string("LOCATE requires a search substring argument"));
    }
    assert(w[0] == args@[0]@);
    let pos: usize = if args.len() > 1 {
        assert(w[1] == args@[1]@);
        match parse_i32(args[1].as_str()) {
            Some(p) => if p >= 1 {
                (p - 1) as usize
            } else {
                0
            },
            None => {
                return Err(
                    message_with(
                        "Could not parse position argument of LOCATE function: ",
                        args[1].as_str(),
                    ),
                );
            },
        }
    } else {
        0
    };
    let n = a.unicode_len();
    if pos > n {
        return Ok(FunctionValue::Int(0));
    }
    let rest = substring(a, pos, n);
    assert(rest@ =~= a@.skip(pos as int));
    match find_str(rest.as_str(), args[0].as_str()) {
        Some(i) => {
            proof {
                lemma_find_in_range(rest@, w[0]);
            }
            Ok(FunctionValue::Int(i as i64 + pos as i64 + 1))
        },
        None => Ok(FunctionValue::Int(0)),
    }
}

/// LOCATE gives the position, counted from 1, of the first occurrence of
/// the searched text at or after the start position, and 0 when the text
/// does not occur there.
pub proof fn lemma_locate_finds_first_occurrence(a: Seq<char>, args: Seq<Seq<char>>)
    requires
        a.len() < i64::MAX,
        args.len() > 0,
        locate_start(args) is Ok,
    ensures
        ({
            let p = locate_start(args)->Ok_0;
            let t = args[0];
            match spec_locate(a, args) {
                Ok(ValueView::Int(k)) => if k > 0 {
                    &&& p <= k - 1
                    &&& occurs_at(a, t, k - 1)
                    &&& forall|j: int| p <= j < k - 1 ==> !occurs_at(a, t, j)
                } else {
                    forall|j: int| p <= j ==> !occurs_at(a, t, j)
                },
                _ => false,
            }
        }),
{
    let p = locate_start(args)->Ok_0;
    let t = args[0];
    if p <= a.len() {
        let rest = a.skip(p);
        lemma_find_from_first(rest, t, 0);
        assert forall|j: int| p <= j implies occurs_at(a, t, j) == occurs_at(rest, t, j - p) by {
            if occurs_at(a, t, j) {
                assert(rest.subrange(j - p, j - p + t.len()) =~= a.subrange(j, j + t.len()));
            }
            if occurs_at(rest, t, j - p) {
                assert(rest.subrange(j - p, j - p + t.len()) =~= a.subrange(j, j + t.len()));
            }
        }
        match spec_find(rest, t) {
            Some(i) => {
                assert(occurs_at(rest, t, i + p - p));
                assert forall|j: int| p <= j < i + p implies !occurs_at(a, t, j) by {
                    assert(!occurs_at(rest, t, j - p));
                }
            },
            None => {
                assert forall|j: int| p <= j implies !occurs_at(a, t, j) by {
                    assert(!occurs_at(rest, t, j - p));
                }
            },
        }
    } else {
        assert forall|j: int| p <= j implies !occurs_at(a, t, j) by {}
    }
}

fn substring_value(a: &str, args: &Vec<String>) -> (r: Result<FunctionValue, String>)
    requires
        a@.len() < i64::MAX,
    ensures
        outcome_view(r) == spec_substring(a@, words(args@)),
{
    let ghost w = words(args@);
    let n = a.unicode_len();
    let pos: usize = if args.len() == 0 {
        0
    } else {
        assert(w[0] == args@[0]@);
        match parse_i32(args[0].as_str()) {
            Some(p) => if p < 0 {
                let back: i64 = n as i64 + p as i64;
                if back > 0 {
                    back as usize
                } else {
                    0
                }
            } else if p >= 1 {
                (p - 1) as usize
            } else {
                0
            },
            None => {
                return Err(
                    message_with(
                        "Could not parse position argument of SUBSTRING function: ",
                        args[0].as_str(),
                    ),
                );
            },
        }
    };
    let count: Option<usize> = if args.len() > 1 {
        assert(w[1] == args@[1]@);
        match parse_usize(args[1].as_str()) {
            Some(l) => Some(l),
            None => {
                return Err(
                    message_with(
                        "Could not parse length argument of SUBSTRING function: ",
                        args[1].as_str(),
                    ),
                );
            },
        }
    } else {
        None
    };
    let from = if pos <= n {
        pos
    } else {
        n
    };
    let to = match count {
        Some(l) => if l <= n - from {
            from + l
        } else {
            n
        },
        None => n,
    };
    let r = substring(a, from, to);
    proof {
        let rest = if pos <= n {
            a@.skip(pos as int)
        } else {
            Seq::<char>::empty()
        };
        assert(rest =~= a@.subrange(from as int, n as int));
        match count {
            Some(l) => {
                if l <= rest.len() {
                    assert(r@ =~= rest.take(l as int));
                } else {
                    assert(r@ =~= rest);
                }
            },
            None => {
                assert(r@ =~= rest);
            },
        }
    }
    Ok(FunctionValue::Str(r))
}

fn replace_value(a: &str, args: &Vec<String>) -> (r: Result<FunctionValue, String>)
    ensures
        outcome_view(r) == spec_replace(a@, words(args@)),
{
    let ghost w = words(args@);
    if args.len() < 2 {
        return Err(
            str_to_string("REPLACE requires two arguments: search string and replacement string"),
        );
    }
    assert(w[0] == args@[0]@ && w[1] == args@[1]@);
    if args[0].unicode_len() == 0 {
        return Ok(FunctionValue::Str(str_to_string(a)));
    }
    Ok(FunctionValue::Str(replace_str(a, args[0].as_str(), args[1].as_str())))
}

fn in_base_value(a: &str, base: u64) -> (r: Result<FunctionValue, String>)
    requires
        2 <= base <= 16,
    ensures
        outcome_view(r) == spec_in_base(a@, base as nat),
{
    match parse_i64(a) {
        Some(v) => {
            let mut s = String::new();
            push_radix(&mut s, v as u64, base);
            Ok(FunctionValue::Str(s))
        },
        None => Ok(FunctionValue::Empty),
    }
}

fn coalesce_value(a: &str, args: &Vec<String>) -> (r: Result<FunctionValue, String>)
    ensures
        outcome_view(r) == spec_coalesce(a@, words(args@)),
{
    let ghost w = words(args@);
    if a.unicode_len() > 0 {
        return Ok(FunctionValue::Str(str_to_string(a)));
    }
    let mut i: usize = 0;
    while i < args.len()
        invariant
            i <= args.len(),
            w == words(args@),
            w.len() == args.len(),
            a@.len() == 0,
            first_nonempty(w, 0) == first_nonempty(w, i as int),
        decreases args.len() - i,
    {
        assert(w[i as int] == args@[i as int]@);
        if args[i].unicode_len() > 0 {
            let t = str_to_string(args[i].as_str());
            assert(first_nonempty(w, i as int) == Some(t@));
            return Ok(FunctionValue::Str(t));
        }
        i = i + 1;
    }
    Ok(FunctionValue::Empty)
}

fn format_time_value(a: &str) -> (r: Result<FunctionValue, String>)
    ensures
        outcome_view(r) == spec_format_time(a@),
{
    if a.unicode_len() == 0 {
        return Ok(FunctionValue::Empty);
    }
    match parse_u64(a) {
        Some(n) => Ok(FunctionValue::Str(human_time(n))),
        None => Ok(FunctionValue::Empty),
    }
}

fn random_value(a: &str, args: &Vec<String>) -> (r: Result<FunctionValue, String>)
    ensures
        match random_bounds(a@, words(args@)) {
            Ok((lo, hi)) => r matches Ok(FunctionValue::Int(x)) && lo <= x <= hi,
            Err(e) => r matches Err(m) && m@ == e,
        },
{
    let ghost w = words(args@);
    if a.unicode_len() == 0 {
        return Ok(FunctionValue::Int(random_in(0, i64::MAX - 1)));
    }
    match parse_i64(a) {
        Some(v) => {
            if args.len() == 0 {
                if v <= 0 {
                    Ok(FunctionValue::Int(0))
                } else {
                    Ok(FunctionValue::Int(random_in(0, v)))
                }
            } else {
                assert(w[0] == args@[0]@);
                match parse_i64(args[0].as_str()) {
                    Some(limit) => {
                        if v >= limit {
                            Ok(FunctionValue::Int(v))
                        } else {
                            Ok(FunctionValue::Int(random_in(v, limit)))
                        }
                    },
                    None => Err(
                        message_with(
                            "Could not parse limit argument of RANDOM function: ",
                            args[0].as_str(),
                        ),
                    ),
                }
            }
        },
        None => Err(message_with("Could not parse an argument of RANDOM function: ", a)),
    }
}

/// The value of a function applied to its text and further arguments;
/// `None` for the functions whose value this library does not compute:
/// those that read a file, the clock or a date, work in floating point, or
/// classify characters by script.
pub fn get_value(function: &Function, function_arg: String, function_args: Vec<String>) -> (r:
    Option<Result<FunctionValue, String>>)
    requires
        function_arg@.len() < i64::MAX,
    ensures
        r is Some <==> spec_computes_value(*function) || spec_value_varies(*function),
        spec_computes_value(*function) ==> (r matches Some(x) && outcome_view(x) == spec_get_value(
            *function,
            function_arg@,
            words(function_args@),
        )),
        *function == Function::Random ==> (r matches Some(x) && match random_bounds(
            function_arg@,
            words(function_args@),
        ) {
            Ok((lo, hi)) => x matches Ok(FunctionValue::Int(v)) && lo <= v <= hi,
            Err(e) => x matches Err(m) && m@ == e,
        }),
        (*function == Function::CurrentUid || *function == Function::CurrentGid) ==> (r matches Some(
            Ok(FunctionValue::Int(v)),
        ) && 0 <= v <= u32::MAX),
        (*function == Function::CurrentUser || *function == Function::CurrentGroup) ==> (r matches Some(
            Ok(v),
        ) && (v is Str || v is Empty)),
{
    let a = function_arg.as_str();
    let args = &function_args;
    let ghost w = words(function_args@);
    match function {
        Function::Lower => Some(Ok(FunctionValue::Str(to_lowercase(a)))),
        Function::Upper => Some(Ok(FunctionValue::Str(to_uppercase(a)))),
        Function::Length => Some(Ok(FunctionValue::Int(a.unicode_len() as i64))),
        Function::ToBase64 => Some(Ok(FunctionValue::Str(to_base64(a)))),
        Function::FromBase64 => Some(Ok(FunctionValue::Str(from_base64(a)))),
        Function::Concat => {
            let mut s = str_to_string(a);
            let rest = join_strings(args, "");
            push_str(&mut s, rest.as_str());
            proof {
                reveal_strlit("");
                assert(""@ =~= Seq::<char>::empty());
            }
            Some(Ok(FunctionValue::Str(s)))
        },
        Function::ConcatWs => Some(Ok(FunctionValue::Str(join_strings(args, a)))),
        Function::Locate => Some(locate_value(a, args)),
        Function::Substring => Some(substring_value(a, args)),
        Function::Replace => Some(replace_value(a, args)),
        Function::Trim => Some(Ok(FunctionValue::Str(trim(a)))),
        Function::LTrim => Some(Ok(FunctionValue::Str(trim_start(a)))),
        Function::RTrim => Some(Ok(FunctionValue::Str(trim_end(a)))),
        Function::Bin => Some(in_base_value(a, 2)),
        Function::Oct => Some(in_base_value(a, 8)),
        Function::Hex => Some(in_base_value(a, 16)),
        Function::FormatTime => Some(format_time_value(a)),
        Function::Coalesce => Some(coalesce_value(a, args)),
        Function::InitCap => Some(Ok(FunctionValue::Str(initcap(a)))),
        Function::ContainsJapanese => Some(Ok(FunctionValue::Bool(contains_script(a, Script::Japanese)))),
        Function::ContainsHiragana => Some(Ok(FunctionValue::Bool(contains_script(a, Script::Hiragana)))),
        Function::ContainsKatakana => Some(Ok(FunctionValue::Bool(contains_script(a, Script::Katakana)))),
        Function::ContainsKana => Some(Ok(FunctionValue::Bool(contains_script(a, Script::Kana)))),
        Function::ContainsKanji => Some(Ok(FunctionValue::Bool(contains_script(a, Script::Kanji)))),
        Function::ContainsGreek => Some(Ok(FunctionValue::Bool(contains_script(a, Script::Greek)))),
        Function::Random => Some(random_value(a, args)),
        Function::CurrentUid => Some(Ok(FunctionValue::Int(current_uid() as i64))),
        Function::CurrentGid => Some(Ok(FunctionValue::Int(current_gid() as i64))),
        Function::CurrentUser => match current_username() {
            Some(s) => Some(Ok(FunctionValue::Str(s))),
            None => Some(Ok(FunctionValue::Empty)),
        },
        Function::CurrentGroup => match current_groupname() {
            Some(s) => Some(Ok(FunctionValue::Str(s))),
            None => Some(Ok(FunctionValue::Empty)),
        },
        Function::Min | Function::Max | Function::Avg | Function::Sum | Function::Count
        | Function::StdDevPop | Function::StdDevSamp | Function::VarPop | Function::VarSamp => Some(
            Ok(FunctionValue::Empty),
        ),
        _ => None,
    }
}

/// The first non-empty text at or after `k` is the one at `i` when every
/// text from `k` up to `i` is empty.
proof fn lemma_first_nonempty_at(args: Seq<Seq<char>>, k: int, i: int)
    requires
        0 <= k <= i < args.len(),
        args[i].len() > 0,
        forall|j: int| k <= j < i ==> args[j].len() == 0,
    ensures
        first_nonempty(args, k) == Some(args[i]),
    decreases i - k,
{
    if k < i {
        lemma_first_nonempty_at(args, k + 1, i);
    }
}

/// There is no non-empty text at or after `k` when all of them are empty.
proof fn lemma_first_nonempty_none(args: Seq<Seq<char>>, k: int)
    requires
        0 <= k,
        forall|j: int| k <= j < args.len() ==> args[j].len() == 0,
    ensures
        first_nonempty(args, k) is None,
    decreases args.len() - k,
{
    if k < args.len() {
        lemma_first_nonempty_none(args, k + 1);
    }
}

/// COALESCE gives its own text when that is not empty; otherwise the
/// first of its arguments that is not empty; and no value when all are
/// empty.
pub proof fn law_coalesce(a: Seq<char>, args: Seq<Seq<char>>, i: int)
    ensures
        a.len() > 0 ==> spec_get_value(Function::Coalesce, a, args) == Ok::<ValueView, Seq<char>>(ValueView::Str(a)),
        (a.len() == 0 && 0 <= i < args.len() && args[i].len() > 0 && (forall|j: int| 0 <= j < i ==> args[j].len()
            == 0)) ==> spec_get_value(Function::Coalesce, a, args) == Ok::<ValueView, Seq<char>>(ValueView::Str(args[i])),
        (a.len() == 0 && (forall|j: int| 0 <= j < args.len() ==> args[j].len() == 0)) ==> spec_get_value(
            Function::Coalesce,
            a,
            args,
        ) == Ok::<ValueView, Seq<char>>(ValueView::Empty),
{
    if a.len() == 0 && 0 <= i < args.len() && args[i].len() > 0 && (forall|j: int| 0 <= j < i ==> args[j].len() == 0) {
        lemma_first_nonempty_at(args, 0, i);
    }
    if a.len() == 0 && (forall|j: int| 0 <= j < args.len() ==> args[j].len() == 0) {
        lemma_first_nonempty_none(args, 0);
    }
}

/// Leading white space is dropped up to the first other character.
proof fn lemma_trim_start_at(s: Seq<char>, i: int)
    requires
        0 <= i <= s.len(),
        forall|k: int| 0 <= k < i ==> unicode_white_space(s[k]),
        i == s.len() || !unicode_white_space(s[i]),
    ensures
        spec_trim_start(s) == s.skip(i),
    decreases i,
{
    if i == 0 {
        assert(s.skip(0) =~= s);
    } else {
        let t = s.skip(1);
        assert forall|k: int| 0 <= k < i - 1 implies unicode_white_space(t[k]) by {
            assert(t[k] == s[k + 1]);
        }
        lemma_trim_start_at(t, i - 1);
        assert(t.skip(i - 1) =~= s.skip(i));
    }
}

/// Trailing white space is dropped back to the last other character.
proof fn lemma_trim_end_at(s: Seq<char>, j: int)
    requires
        0 <= j <= s.len(),
        forall|k: int| j <= k < s.len() ==> unicode_white_space(s[k]),
        j == 0 || !unicode_white_space(s[j - 1]),
    ensures
        spec_trim_end(s) == s.take(j),
    decreases s.len() - j,
{
    if j == s.len() {
        assert(s.take(j) =~= s);
    } else {
        let t = s.drop_last();
        lemma_trim_end_at(t, j);
        assert(t.take(j) =~= s.take(j));
    }
}

/// TRIM, LTRIM and RTRIM drop the white space at both ends, at the start
/// and at the end: given the first character `i` that is not white space
/// and the end `j` of the last one, TRIM keeps the characters from `i` up
/// to `j`, LTRIM those from `i` on, RTRIM those up to `j`.
pub proof fn law_trim(s: Seq<char>, args: Seq<Seq<char>>, i: int, j: int)
    requires
        0 <= i <= s.len(),
        0 <= j <= s.len(),
        forall|k: int| 0 <= k < i ==> unicode_white_space(s[k]),
        i == s.len() || !unicode_white_space(s[i]),
        forall|k: int| j <= k < s.len() ==> unicode_white_space(s[k]),
        j == 0 || !unicode_white_space(s[j - 1]),
    ensures
        spec_get_value(Function::LTrim, s, args) == Ok::<ValueView, Seq<char>>(ValueView::Str(s.skip(i))),
        spec_get_value(Function::RTrim, s, args) == Ok::<ValueView, Seq<char>>(ValueView::Str(s.take(j))),
        spec_get_value(Function::Trim, s, args) == Ok::<ValueView, Seq<char>>(ValueView::Str(
            if i < j {
                s.subrange(i, j)
            } else {
                Seq::empty()
            },
        )),
{
    lemma_trim_start_at(s, i);
    lemma_trim_end_at(s, j);
    let t = s.skip(i);
    if i < j {
        assert forall|k: int| j - i <= k < t.len() implies unicode_white_space(t[k]) by {
            assert(t[k] == s[k + i]);
        }
        assert(t[j - i - 1] == s[j - 1]);
        lemma_trim_end_at(t, j - i);
        assert(t.take(j - i) =~= s.subrange(i, j));
    } else {
        if i < s.len() {
            assert(j <= i);
            assert(!unicode_white_space(s[i]));
            assert(false);
        }
        lemma_trim_end_at(t, 0);
        assert(t.take(0) =~= Seq::<char>::empty());
    }
}

/// LOCATE with one argument gives the place, counted from 1, of the first
/// occurrence of the argument in the text, and 0 when it does not occur.
pub proof fn law_locate(a: Seq<char>, t: Seq<char>)
    requires
        a.len() < i64::MAX,
    ensures
        spec_get_value(Function::Locate, a, seq![t]) matches Ok(ValueView::Int(n)) && ({
            &&& n > 0 ==> (n - 1 + t.len() <= a.len() && a.subrange(n - 1, n - 1 + t.len()) == t
                && forall|k: int| 0 <= k < n - 1 ==> !#[trigger] occurs_at(a, t, k))
            &&& n == 0 ==> forall|k: int| !#[trigger] occurs_at(a, t, k)
        }),
{
    assert(a.skip(0) =~= a);
    lemma_find_from_first(a, t, 0);
    lemma_find_in_range(a, t);
    assert(seq![t][0] == t);
    assert(seq![t].len() == 1);
    assert(locate_start(seq![t]) == Ok::<int, Seq<char>>(0));
    match spec_find(a, t) {
        Some(i) => {
            assert(((i + 0 + 1) as i64) as int == i + 1);
        },
        None => {},
    }
}

} // verus!
