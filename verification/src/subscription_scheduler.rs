//! The scheduled check of all subscriptions: its interval and the summary
//! pushed after a run.
use vstd::prelude::*;
use crate::source_quality::first_n;
use crate::subscription_check::{interval_minutes, normalize_check_interval_minutes, CheckResult};
use crate::text::{int_decimal, join_strings, joined, owned, push_count, push_str, views};

verus! {

pub const HEADER_PREFIX: &'static str = "本次检查 ";
pub const HEADER_CHECKED: &'static str = " 个订阅，";
pub const HEADER_UPDATED: &'static str = " 个有更新，";
pub const HEADER_UNCHANGED: &'static str = " 个无更新。";
pub const SECTION_UPDATED: &'static str = "有更新";
pub const SECTION_UNCHANGED: &'static str = "无更新";
pub const SECTION_INVALID: &'static str = "已失效";
pub const SECTION_COMPLETED: &'static str = "已完结";
pub const COLON: &'static str = "：";
pub const LIST_SEPARATOR: &'static str = "、";
pub const NEW_FILES_SUFFIX: &'static str = " 个新文件";
pub const MORE_PREFIX: &'static str = "另 ";
pub const MORE_SUFFIX: &'static str = " 个";
pub const PREVIEW_OPEN: &'static str = "（";
pub const PREVIEW_CLOSE: &'static str = "）";
pub const LINE_BREAK: &'static str = "\n";

/// The scheduler's interval in minutes.
pub fn normalize_interval_minutes(minutes: i32) -> (r: u64)
    ensures
        r == interval_minutes(minutes as int),
{
    normalize_check_interval_minutes(minutes as i64) as u64
}

/// Whether a check result is worth reporting: new files, or the
/// subscription became invalid or completed.
pub open spec fn noteworthy(r: CheckResult) -> bool {
    r.new_files@.len() > 0 || r.became_invalid || r.became_completed
}

/// Whether the summary of a run is pushed: some result is worth reporting.
pub fn should_dispatch_subscription_check_summary(results: &[CheckResult]) -> (r: bool)
    ensures
        r == exists|k: int| 0 <= k < results@.len() && noteworthy(#[trigger] results@[k]),
{
    let mut i: usize = 0;
    while i < results.len()
        invariant
            i <= results.len(),
            forall|k: int| 0 <= k < i ==> !noteworthy(#[trigger] results@[k]),
        decreases results.len() - i,
    {
        let r = &results[i];
        if r.new_files.len() > 0 || r.became_invalid || r.became_completed {
            assert(noteworthy(results@[i as int]));
            return true;
        }
        i = i + 1;
    }
    false
}

/// `"另 n 个"`.
pub open spec fn more_text(n: int) -> Seq<char> {
    MORE_PREFIX@ + int_decimal(n) + MORE_SUFFIX@
}

/// At most `limit` items, and a count of the rest, joined by `、`.
pub open spec fn limited_list(items: Seq<Seq<char>>, limit: int) -> Seq<char> {
    let shown = first_n(items, limit);
    joined(
        if items.len() > limit {
            shown.push(more_text(items.len() - limit))
        } else {
            shown
        },
        LIST_SEPARATOR@,
    )
}

/// At most `limit` items, and a count of the rest, joined by `、`.
fn limited_items(items: &Vec<String>, limit: usize) -> (r: String)
    ensures
        r@ == limited_list(views(items@), limit as int),
{
    let mut shown: Vec<String> = Vec::new();
    let mut i: usize = 0;
    while i < items.len() && i < limit
        invariant
            i <= items.len(),
            i <= limit,
            views(shown@) == views(items@).take(i as int),
        decreases items.len() - i,
    {
        let ghost before = views(shown@);
        shown.push(items[i].clone());
        assert(views(shown@) =~= before.push(items@[i as int]@));
        assert(views(items@).take(i + 1) =~= views(items@).take(i as int).push(items@[i as int]@));
        i = i + 1;
    }
    if items.len() <= limit {
        assert(views(items@).take(i as int) =~= views(items@));
    }
    if items.len() > limit {
        let mut more = owned(MORE_PREFIX);
        push_count(&mut more, items.len() - limit);
        push_str(&mut more, MORE_SUFFIX);
        let ghost before = views(shown@);
        shown.push(more);
        assert(views(shown@) =~= before.push(more_text(items@.len() - limit)));
    }
    join_strings(shown.as_slice(), LIST_SEPARATOR)
}

/// The preview of new files: nothing when there are none, else up to three
/// names (and a count of the rest) in full-width parentheses.
pub open spec fn preview_suffix(files: Seq<Seq<char>>) -> Seq<char> {
    if files.len() == 0 {
        seq![]
    } else {
        PREVIEW_OPEN@ + limited_list(files, 3) + PREVIEW_CLOSE@
    }
}

/// The preview of new files.
pub fn file_preview_suffix(files: &Vec<String>) -> (r: String)
    ensures
        r@ == preview_suffix(views(files@)),
{
    if files.len() == 0 {
        return String::new();
    }
    let mut s = owned(PREVIEW_OPEN);
    let list = limited_items(files, 3);
    push_str(&mut s, list.as_str());
    push_str(&mut s, PREVIEW_CLOSE);
    s
}

/// The line of an updated subscription: title, count of new files, preview.
pub open spec fn updated_text(r: CheckResult) -> Seq<char> {
    r.subscription_title@ + COLON@ + int_decimal(r.new_files@.len() as int) + NEW_FILES_SUFFIX@
        + preview_suffix(views(r.new_files@))
}

/// The line of an invalid subscription: title and summary.
pub open spec fn invalid_text(r: CheckResult) -> Seq<char> {
    r.subscription_title@ + COLON@ + r.summary@
}

/// Whether a result had no news at all.
pub open spec fn unchanged(r: CheckResult) -> bool {
    r.new_files@.len() == 0 && !r.became_invalid && !r.became_completed
}

/// The kinds of sections of the summary.
pub open spec fn section_item(kind: int, r: CheckResult) -> Option<Seq<char>> {
    if kind == 0 {
        if r.new_files@.len() > 0 {
            Some(updated_text(r))
        } else {
            None
        }
    } else if kind == 1 {
        if unchanged(r) {
            Some(r.subscription_title@)
        } else {
            None
        }
    } else if kind == 2 {
        if r.became_invalid {
            Some(invalid_text(r))
        } else {
            None
        }
    } else {
        if r.became_completed {
            Some(r.subscription_title@)
        } else {
            None
        }
    }
}

/// The lines of a section, in the order of the results.
pub open spec fn section_items(kind: int, rs: Seq<CheckResult>) -> Seq<Seq<char>>
    decreases rs.len(),
{
    if rs.len() == 0 {
        seq![]
    } else {
        let rest = section_items(kind, rs.drop_last());
        match section_item(kind, rs.last()) {
            Some(t) => rest.push(t),
            None => rest,
        }
    }
}

/// A section line where the section has items.
pub open spec fn section_line(title: Seq<char>, items: Seq<Seq<char>>) -> Seq<Seq<char>> {
    if items.len() == 0 {
        seq![]
    } else {
        seq![title + COLON@ + limited_list(items, 10)]
    }
}

/// The summary of a run: counts, then the updated, unchanged, invalid and
/// completed subscriptions, one line each section.
pub open spec fn summary_text(rs: Seq<CheckResult>) -> Seq<char> {
    let header = HEADER_PREFIX@ + int_decimal(rs.len() as int) + HEADER_CHECKED@ + int_decimal(
        section_items(0, rs).len() as int,
    ) + HEADER_UPDATED@ + int_decimal(section_items(1, rs).len() as int) + HEADER_UNCHANGED@;
    joined(
        seq![header] + section_line(SECTION_UPDATED@, section_items(0, rs)) + section_line(
            SECTION_UNCHANGED@,
            section_items(1, rs),
        ) + section_line(SECTION_INVALID@, section_items(2, rs)) + section_line(
            SECTION_COMPLETED@,
            section_items(3, rs),
        ),
        LINE_BREAK@,
    )
}

/// The line a result contributes to section `kind`, if any.
fn section_item_text(kind: u8, r: &CheckResult) -> (t: Option<String>)
    requires
        kind < 4,
    ensures
        match t {
            Some(s) => section_item(kind as int, *r) == Some(s@),
            None => section_item(kind as int, *r) is None,
        },
{
    if kind == 0 {
        if r.new_files.len() > 0 {
            let mut s = r.subscription_title.clone();
            push_str(&mut s, COLON);
            push_count(&mut s, r.new_files.len());
            push_str(&mut s, NEW_FILES_SUFFIX);
            let p = file_preview_suffix(&r.new_files);
            push_str(&mut s, p.as_str());
            Some(s)
        } else {
            None
        }
    } else if kind == 1 {
        if r.new_files.len() == 0 && !r.became_invalid && !r.became_completed {
            Some(r.subscription_title.clone())
        } else {
            None
        }
    } else if kind == 2 {
        if r.became_invalid {
            let mut s = r.subscription_title.clone();
            push_str(&mut s, COLON);
            push_str(&mut s, r.summary.as_str());
            Some(s)
        } else {
            None
        }
    } else {
        if r.became_completed {
            Some(r.subscription_title.clone())
        } else {
            None
        }
    }
}

/// The lines of section `kind`.
fn section_lines(kind: u8, results: &[CheckResult]) -> (r: Vec<String>)
    requires
        kind < 4,
    ensures
        views(r@) == section_items(kind as int, results@),
{
    let mut out: Vec<String> = Vec::new();
    let mut i: usize = 0;
    assert(results@.take(0) =~= seq![]);
    assert(views(out@) =~= seq![]);
    while i < results.len()
        invariant
            i <= results.len(),
            kind < 4,
            views(out@) == section_items(kind as int, results@.take(i as int)),
        decreases results.len() - i,
    {
        assert(results@.take(i + 1).drop_last() =~= results@.take(i as int));
        assert(results@.take(i + 1).last() == results@[i as int]);
        match section_item_text(kind, &results[i]) {
            Some(t) => {
                let ghost before = views(out@);
                out.push(t);
                assert(views(out@) =~= before.push(t@));
            },
            None => {},
        }
        i = i + 1;
    }
    assert(results@.take(results.len() as int) =~= results@);
    out
}

/// Appends the line of a section where it has items.
fn append_subscription_section(lines: &mut Vec<String>, title: &str, items: &Vec<String>)
    ensures
        views(final(lines)@) == views(old(lines)@) + section_line(title@, views(items@)),
{
    if items.len() == 0 {
        assert(views(lines@) + seq![] =~= views(lines@));
        return;
    }
    let mut line = owned(title);
    push_str(&mut line, COLON);
    let list = limited_items(items, 10);
    push_str(&mut line, list.as_str());
    let ghost before = views(lines@);
    lines.push(line);
    assert(views(lines@) =~= before + seq![title@ + COLON@ + limited_list(views(items@), 10)]);
}

/// The summary of a run of checks.
pub fn subscription_check_summary_message(results: &[CheckResult]) -> (r: String)
    ensures
        r@ == summary_text(results@),
{
    let updated = section_lines(0, results);
    let unchanged = section_lines(1, results);
    let invalid = section_lines(2, results);
    let completed = section_lines(3, results);
    let mut header = owned(HEADER_PREFIX);
    push_count(&mut header, results.len());
    push_str(&mut header, HEADER_CHECKED);
    push_count(&mut header, updated.len());
    push_str(&mut header, HEADER_UPDATED);
    push_count(&mut header, unchanged.len());
    push_str(&mut header, HEADER_UNCHANGED);
    let ghost h = header@;
    let mut lines: Vec<String> = Vec::new();
    lines.push(header);
    let ghost l0 = views(lines@);
    assert(l0 =~= seq![h]);
    append_subscription_section(&mut lines, SECTION_UPDATED, &updated);
    append_subscription_section(&mut lines, SECTION_UNCHANGED, &unchanged);
    append_subscription_section(&mut lines, SECTION_INVALID, &invalid);
    append_subscription_section(&mut lines, SECTION_COMPLETED, &completed);
    assert(views(lines@) =~= l0 + section_line(SECTION_UPDATED@, section_items(0, results@))
        + section_line(SECTION_UNCHANGED@, section_items(1, results@)) + section_line(
        SECTION_INVALID@,
        section_items(2, results@),
    ) + section_line(SECTION_COMPLETED@, section_items(3, results@)));
    join_strings(lines.as_slice(), LINE_BREAK)
}

} // verus!
