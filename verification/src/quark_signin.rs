//! The daily check-in on the cloud drive: the messages reported about it and
//! when it is due.
use vstd::prelude::*;
use crate::error::AppError;
use crate::text::{int_decimal, int_decimal_02, owned, push_count, push_decimal, push_decimal_02, push_str, str_eq};

verus! {

/// What a check-in reported.
#[derive(Debug, Clone, PartialEq, Eq)]
pub struct QuarkSigninResult {
    pub signed: bool,
    pub already_signed: bool,
    pub daily_reward_bytes: i64,
    pub total_capacity_bytes: i64,
    pub used_capacity_bytes: Option<i64>,
    pub sign_reward_bytes: i64,
    pub member_type: String,
    pub sign_progress: i64,
    pub sign_target: i64,
}

/// The check-in day starts at midnight in UTC+8.
pub const SIGNIN_TIMEZONE_OFFSET_SECONDS: i64 = 28800;

pub const UNIT_B: &'static str = "B";
pub const UNIT_KB: &'static str = "KB";
pub const UNIT_MB: &'static str = "MB";
pub const UNIT_GB: &'static str = "GB";
pub const UNIT_TB: &'static str = "TB";

pub const MEMBER_NORMAL: &'static str = "NORMAL";
pub const MEMBER_EXP_SVIP: &'static str = "EXP_SVIP";
pub const MEMBER_SUPER_VIP: &'static str = "SUPER_VIP";
pub const MEMBER_Z_VIP: &'static str = "Z_VIP";
pub const LABEL_NORMAL: &'static str = "普通用户";
pub const LABEL_EXP_SVIP: &'static str = "88VIP";
pub const LABEL_SUPER_VIP: &'static str = "SVIP";
pub const LABEL_Z_VIP: &'static str = "SVIP+";

pub const ACTION_ALREADY: &'static str = "今日已签到";
pub const ACTION_SIGNED: &'static str = "今日签到";
pub const MSG_REWARD: &'static str = " +";
pub const MSG_PROGRESS: &'static str = "，连签进度 ";
pub const MSG_SLASH: &'static str = "/";
pub const MSG_SEPARATOR: &'static str = "，";
pub const MSG_TOTAL: &'static str = " 总空间 ";
pub const MSG_ACCUMULATED: &'static str = "，签到累计获得 ";
pub const FAILURE_PREFIX: &'static str = "夸克签到失败：";

/// An hour of the day clamped into `0..=23`.
pub open spec fn clamp_hour(hour: int) -> int {
    if hour < 0 {
        0
    } else if hour > 23 {
        23
    } else {
        hour
    }
}

/// Clamps an hour of the day into `0..=23`.
pub fn normalize_hour(hour: i32) -> (r: i32)
    ensures
        r == clamp_hour(hour as int),
{
    if hour < 0 {
        0
    } else if hour > 23 {
        23
    } else {
        hour
    }
}

/// Whether the catch-up check-in runs: the current hour (UTC+8) has reached
/// the configured one.
pub fn should_run_startup_catchup(hour: i32, now_hour: u32) -> (r: bool)
    ensures
        r == (now_hour as int >= clamp_hour(hour as int)),
{
    now_hour as i64 >= normalize_hour(hour) as i64
}

/// The day (in UTC+8) a Unix time falls on, as `floor`-free integer division
/// the way the service computes it.
pub open spec fn day_index(timestamp: int) -> int {
    let shifted = timestamp + SIGNIN_TIMEZONE_OFFSET_SECONDS;
    if shifted >= 0 {
        shifted / 86400
    } else {
        -((-shifted) / 86400)
    }
}

/// The day (in UTC+8) a Unix time falls on.
pub fn shanghai_day_index(timestamp: i64) -> (r: i64)
    requires
        timestamp + SIGNIN_TIMEZONE_OFFSET_SECONDS <= i64::MAX,
    ensures
        r == day_index(timestamp as int),
{
    let shifted = timestamp + SIGNIN_TIMEZONE_OFFSET_SECONDS;
    if shifted >= 0 {
        shifted / 86400
    } else {
        -(((-(shifted as i128)) / 86400) as i64)
    }
}

/// The label of a membership type; unknown types are shown as they are.
pub open spec fn member_label(value: Seq<char>) -> Seq<char> {
    if value == MEMBER_NORMAL@ {
        LABEL_NORMAL@
    } else if value == MEMBER_EXP_SVIP@ {
        LABEL_EXP_SVIP@
    } else if value == MEMBER_SUPER_VIP@ {
        LABEL_SUPER_VIP@
    } else if value == MEMBER_Z_VIP@ {
        LABEL_Z_VIP@
    } else {
        value
    }
}

/// The label of a membership type.
pub fn member_type_label(value: &str) -> (r: String)
    ensures
        r@ == member_label(value@),
{
    if str_eq(value, MEMBER_NORMAL) {
        owned(LABEL_NORMAL)
    } else if str_eq(value, MEMBER_EXP_SVIP) {
        owned(LABEL_EXP_SVIP)
    } else if str_eq(value, MEMBER_SUPER_VIP) {
        owned(LABEL_SUPER_VIP)
    } else if str_eq(value, MEMBER_Z_VIP) {
        owned(LABEL_Z_VIP)
    } else {
        owned(value)
    }
}

/// `1024^n`.
pub open spec fn kib_pow(n: nat) -> nat
    decreases n,
{
    if n == 0 {
        1
    } else {
        1024 * kib_pow((n - 1) as nat)
    }
}

/// The unit a size is shown in: divided by 1024 while at least 1024, up to
/// terabytes.
pub open spec fn size_unit(size: int) -> nat {
    if size < 1024 {
        0
    } else if size < 1024 * 1024 {
        1
    } else if size < 1024 * 1024 * 1024 {
        2
    } else if size < 1024 * 1024 * 1024 * 1024 {
        3
    } else {
        4
    }
}

/// `size / 1024^unit` in hundredths, rounded to nearest with ties to even
/// (how `{:.2}` rounds the exact quotient).
pub open spec fn hundredths(size: int, unit: nat) -> int {
    let d = kib_pow(unit) as int;
    let q = (size * 100) / d;
    let r = (size * 100) % d;
    if 2 * r > d || (2 * r == d && q % 2 == 1) {
        q + 1
    } else {
        q
    }
}

pub open spec fn unit_name(unit: nat) -> Seq<char> {
    if unit == 0 {
        UNIT_B@
    } else if unit == 1 {
        UNIT_KB@
    } else if unit == 2 {
        UNIT_MB@
    } else if unit == 3 {
        UNIT_GB@
    } else {
        UNIT_TB@
    }
}

/// A byte count for people: whole bytes below a kibibyte, else the value in
/// the largest unit up to terabytes with two decimals. Negative sizes count as
/// zero.
pub open spec fn bytes_text(size: int) -> Seq<char> {
    let s = if size < 0 {
        0
    } else {
        size
    };
    let unit = size_unit(s);
    if unit == 0 {
        int_decimal(s) + seq![' '] + UNIT_B@
    } else {
        let h = hundredths(s, unit);
        int_decimal(h / 100) + seq!['.'] + int_decimal_02(h % 100) + seq![' '] + unit_name(unit)
    }
}

/// A byte count for people (`B`, `KB`, `MB`, `GB`, `TB`).
pub fn format_bytes(size: i64) -> (r: String)
    ensures
        r@ == bytes_text(size as int),
{
    let s: u64 = if size < 0 {
        0
    } else {
        size as u64
    };
    format_byte_count(s)
}

/// An unsigned byte count for people, as `format_bytes` writes it.
pub fn format_byte_count(s: u64) -> (r: String)
    ensures
        r@ == bytes_text(s as int),
{
    let mut out = String::new();
    if s < 1024 {
        push_decimal(&mut out, s as i64);
        push_str(&mut out, " ");
        push_str(&mut out, UNIT_B);
        proof {
            reveal_strlit(" ");
        }
        assert(out@ =~= int_decimal(s as int) + seq![' '] + UNIT_B@);
        return out;
    }
    let (d, unit, name): (u128, u32, &str) = if s < 1024 * 1024 {
        (1024, 1, UNIT_KB)
    } else if s < 1024 * 1024 * 1024 {
        (1024 * 1024, 2, UNIT_MB)
    } else if s < 1024 * 1024 * 1024 * 1024 {
        (1024 * 1024 * 1024, 3, UNIT_GB)
    } else {
        (1024 * 1024 * 1024 * 1024, 4, UNIT_TB)
    };
    assert(d == kib_pow(unit as nat)) by {
        reveal_with_fuel(kib_pow, 5);
    }
    let scaled: u128 = (s as u128) * 100;
    let q = scaled / d;
    let r = scaled % d;
    let h: u128 = if 2 * r > d || (2 * r == d && q % 2 == 1) {
        q + 1
    } else {
        q
    };
    assert(h == hundredths(s as int, unit as nat));
    assert(h < 0x1_0000_0000_0000_0000) by (nonlinear_arith)
        requires
            h <= q + 1,
            q == scaled / d,
            scaled <= 0xffff_ffff_ffff_ffff * 100,
            d >= 1024,
    ;
    push_decimal(&mut out, (h / 100) as i64);
    push_str(&mut out, ".");
    push_decimal_02(&mut out, (h % 100) as i64);
    push_str(&mut out, " ");
    push_str(&mut out, name);
    proof {
        reveal_strlit(" ");
        reveal_strlit(".");
    }
    assert(out@ =~= int_decimal((h / 100) as int) + seq!['.'] + int_decimal_02((h % 100) as int)
        + seq![' '] + unit_name(unit as nat));
    out
}

/// The message about a check-in: the reward, the streak, the membership and
/// the capacity.
pub open spec fn signin_text(r: QuarkSigninResult) -> Seq<char> {
    (if r.already_signed {
        ACTION_ALREADY@
    } else {
        ACTION_SIGNED@
    }) + MSG_REWARD@ + bytes_text(r.daily_reward_bytes as int) + MSG_PROGRESS@ + int_decimal(
        r.sign_progress as int,
    ) + MSG_SLASH@ + int_decimal(r.sign_target as int) + MSG_SEPARATOR@ + member_label(
        r.member_type@,
    ) + MSG_TOTAL@ + bytes_text(r.total_capacity_bytes as int) + MSG_ACCUMULATED@ + bytes_text(
        r.sign_reward_bytes as int,
    )
}

/// The message about a check-in.
pub fn signin_message(result: &QuarkSigninResult) -> (r: String)
    ensures
        r@ == signin_text(*result),
{
    let mut s = if result.already_signed {
        owned(ACTION_ALREADY)
    } else {
        owned(ACTION_SIGNED)
    };
    push_str(&mut s, MSG_REWARD);
    let reward = format_bytes(result.daily_reward_bytes);
    push_str(&mut s, reward.as_str());
    push_str(&mut s, MSG_PROGRESS);
    push_decimal(&mut s, result.sign_progress);
    push_str(&mut s, MSG_SLASH);
    push_decimal(&mut s, result.sign_target);
    push_str(&mut s, MSG_SEPARATOR);
    let label = member_type_label(result.member_type.as_str());
    push_str(&mut s, label.as_str());
    push_str(&mut s, MSG_TOTAL);
    let total = format_bytes(result.total_capacity_bytes);
    push_str(&mut s, total.as_str());
    push_str(&mut s, MSG_ACCUMULATED);
    let accumulated = format_bytes(result.sign_reward_bytes);
    push_str(&mut s, accumulated.as_str());
    s
}

/// The message about a failed check-in.
pub fn signin_failure_message(err: &AppError) -> (r: String)
    ensures
        r@ == FAILURE_PREFIX@ + err.description(),
{
    let mut s = owned(FAILURE_PREFIX);
    let d = err.describe();
    push_str(&mut s, d.as_str());
    s
}

} // verus!
