//! The commands of the desktop front end, as far as they decide or compute.

use vstd::prelude::*;

use crate::text::{decimal, owned, push_decimal, same_text};

verus! {

/// The memory summary shown by the front end, in whole mebibytes.
pub open spec fn memory_summary_spec(total_bytes: u64, used_bytes: u64) -> Seq<char> {
    "总内存: "@ + decimal((total_bytes / 1024 / 1024) as nat) + " MB | 已用: "@ + decimal(
        (used_bytes / 1024 / 1024) as nat,
    ) + " MB"@
}

/// The memory summary for the given total and used bytes.
pub fn memory_usage_summary(total_bytes: u64, used_bytes: u64) -> (s: String)
    ensures
        s@ == memory_summary_spec(total_bytes, used_bytes),
{
    let mut s = owned("总内存: ");
    push_decimal(&mut s, total_bytes / 1024 / 1024);
    s.append(" MB | 已用: ");
    push_decimal(&mut s, used_bytes / 1024 / 1024);
    s.append(" MB");
    s
}

/// How an estimate of reclaimable memory is shown.
#[derive(Debug, Clone)]
pub enum SavingsDisplay {
    /// the estimate in whole mebibytes, as text such as `"512 MB"`
    Megabytes(String),
    /// an estimate above 1024 MiB, given in mebibytes; it is shown in
    /// gibibytes with one decimal
    Gigabytes(u64),
}

/// The memory that freezing background tabs may reclaim: a fifth of the used
/// memory, in whole mebibytes.
pub open spec fn savings_mb(used_bytes: u64) -> nat {
    (used_bytes / 5 / 1024 / 1024) as nat
}

/// Estimates the memory that freezing background tabs may reclaim.
pub fn estimated_savings(used_bytes: u64) -> (d: SavingsDisplay)
    ensures
        savings_mb(used_bytes) > 1024 ==> d == SavingsDisplay::Gigabytes(savings_mb(used_bytes) as u64),
        savings_mb(used_bytes) <= 1024 ==> (d matches SavingsDisplay::Megabytes(s) && s@ == decimal(
            savings_mb(used_bytes),
        ) + " MB"@),
{
    let mb = used_bytes / 5 / 1024 / 1024;
    if mb > 1024 {
        SavingsDisplay::Gigabytes(mb)
    } else {
        let mut s = String::new();
        push_decimal(&mut s, mb);
        s.append(" MB");
        SavingsDisplay::Megabytes(s)
    }
}

/// The side effect of a fix action.
#[derive(PartialEq, Eq, Structural, Debug, Clone, Copy)]
pub enum FixEffect {
    /// nothing
    Nothing,
    /// flush the system DNS cache (`ipconfig /flushdns`)
    FlushDns,
    /// ask the front end to open a mirror (`trigger-redirect`)
    Redirect,
    /// ask the front end to freeze background tabs (`action-freeze-tabs`)
    FreezeTabs,
}

/// A fix action's side effect and reply.
#[derive(Debug)]
pub struct FixPlan {
    pub effect: FixEffect,
    pub reply: Result<String, String>,
}

/// The side effect and reply of a fix action, on Windows or elsewhere.
pub open spec fn fix_plan_spec(action: Seq<char>, windows: bool) -> (FixEffect, Result<Seq<char>, Seq<char>>) {
    if action == "RESET_DNS"@ {
        if windows {
            (FixEffect::FlushDns, Ok("DNS 缓存已刷新"@))
        } else {
            (FixEffect::Nothing, Ok("不支持当前系统"@))
        }
    } else if action == "TRY_MIRROR"@ {
        (FixEffect::Redirect, Ok("已尝试切换镜像"@))
    } else if action == "FREEZE_TABS"@ {
        (FixEffect::FreezeTabs, Ok("后台资源回收中"@))
    } else {
        (FixEffect::Nothing, Err("未知动作"@))
    }
}

/// Only `RESET_DNS` depends on the platform: it flushes the DNS cache on
/// Windows and does nothing elsewhere. Every other action has the same
/// effect and reply on every platform; `TRY_MIRROR` opens a mirror,
/// `FREEZE_TABS` freezes background tabs, and anything else is refused as an
/// unknown action.
pub proof fn law_fix_actions_and_platforms(action: Seq<char>, windows: bool)
    ensures
        action != "RESET_DNS"@ ==> fix_plan_spec(action, windows) == fix_plan_spec(action, !windows),
        fix_plan_spec("RESET_DNS"@, true) == (FixEffect::FlushDns, Ok::<Seq<char>, Seq<char>>(
            "DNS 缓存已刷新"@,
        )),
        fix_plan_spec("RESET_DNS"@, false) == (FixEffect::Nothing, Ok::<Seq<char>, Seq<char>>(
            "不支持当前系统"@,
        )),
        fix_plan_spec("TRY_MIRROR"@, windows) == (FixEffect::Redirect, Ok::<Seq<char>, Seq<char>>(
            "已尝试切换镜像"@,
        )),
        fix_plan_spec("FREEZE_TABS"@, windows) == (FixEffect::FreezeTabs, Ok::<Seq<char>, Seq<char>>(
            "后台资源回收中"@,
        )),
        action != "RESET_DNS"@ && action != "TRY_MIRROR"@ && action != "FREEZE_TABS"@ ==> fix_plan_spec(
            action,
            windows,
        ) == (FixEffect::Nothing, Err::<Seq<char>, Seq<char>>("未知动作"@)),
{
    reveal_strlit("RESET_DNS");
    reveal_strlit("TRY_MIRROR");
    reveal_strlit("FREEZE_TABS");
    assert("TRY_MIRROR"@ != "RESET_DNS"@) by {
        assert("TRY_MIRROR"@[0] != "RESET_DNS"@[0]);
    }
    assert("FREEZE_TABS"@ != "RESET_DNS"@) by {
        assert("FREEZE_TABS"@[0] != "RESET_DNS"@[0]);
    }
    assert("FREEZE_TABS"@ != "TRY_MIRROR"@) by {
        assert("FREEZE_TABS"@[0] != "TRY_MIRROR"@[0]);
    }
}

/// Runs the unified fix-action dispatcher.
pub fn fix_action_plan(action_type: &str, windows: bool) -> (p: FixPlan)
    ensures
        p.effect == fix_plan_spec(action_type@, windows).0,
        match (p.reply, fix_plan_spec(action_type@, windows).1) {
            (Ok(a), Ok(b)) => a@ == b,
            (Err(a), Err(b)) => a@ == b,
            _ => false,
        },
{
    if same_text(action_type, "RESET_DNS") {
        if windows {
            FixPlan { effect: FixEffect::FlushDns, reply: Ok(owned("DNS 缓存已刷新")) }
        } else {
            FixPlan { effect: FixEffect::Nothing, reply: Ok(owned("不支持当前系统")) }
        }
    } else if same_text(action_type, "TRY_MIRROR") {
        FixPlan { effect: FixEffect::Redirect, reply: Ok(owned("已尝试切换镜像")) }
    } else if same_text(action_type, "FREEZE_TABS") {
        FixPlan { effect: FixEffect::FreezeTabs, reply: Ok(owned("后台资源回收中")) }
    } else {
        FixPlan { effect: FixEffect::Nothing, reply: Err(owned("未知动作")) }
    }
}

} // verus!
