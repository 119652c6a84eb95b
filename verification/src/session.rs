//! Decisions the window makes between frames: when the library is checked
//! for new chapters, and what the user is told when the check ends.

use vstd::prelude::*;

use crate::format::{decimal, push_decimal};

verus! {

/// One hour, in milliseconds.
pub const HOUR_MILLIS: i64 = 3_600_000;

/// The message shown when a library check ends.
pub open spec fn update_message_text(new_chapters: nat, failed: nat) -> Seq<char> {
    (if new_chapters > 0 {
        "Library updated — "@ + decimal(new_chapters) + " new chapter(s)"@
    } else {
        "Library updated — nothing new"@
    }) + (if failed > 0 {
        ", "@ + decimal(failed) + " failed"@
    } else {
        Seq::<char>::empty()
    })
}

/// Prints the message shown when a library check ends.
pub fn library_update_message(new_chapters: usize, failed: usize) -> (s: String)
    ensures
        s@ == update_message_text(new_chapters as nat, failed as nat),
{
    let mut s = String::new();
    if new_chapters > 0 {
        s.append("Library updated — ");
        push_decimal(&mut s, new_chapters as u64);
        s.append(" new chapter(s)");
    } else {
        s.append("Library updated — nothing new");
    }
    if failed > 0 {
        s.append(", ");
        push_decimal(&mut s, failed as u64);
        s.append(" failed");
    }
    s
}

/// Whether the scheduled library check is due: checks are enabled (a
/// non-zero interval), the library is not empty, and either no check ran
/// yet or the interval has passed since the last one.
pub open spec fn update_due(interval_hours: u32, library_size: usize, now: i64, last_update: i64) -> bool {
    &&& interval_hours != 0
    &&& library_size != 0
    &&& !(last_update > 0 && now - last_update < interval_hours * HOUR_MILLIS)
}

pub fn auto_update_due(interval_hours: u32, library_size: usize, now: i64, last_update: i64) -> (b:
    bool)
    requires
        i64::MIN <= now - last_update <= i64::MAX,
    ensures
        b == update_due(interval_hours, library_size, now, last_update),
{
    if interval_hours == 0 || library_size == 0 {
        return false;
    }
    let elapsed = now - last_update;
    let interval = interval_hours as i64 * HOUR_MILLIS;
    !(last_update > 0 && elapsed < interval)
}

/// How long changed preferences wait before they are written, in
/// milliseconds, so a slider drag is saved once.
pub const PREFS_FLUSH_DELAY: u64 = 700;

/// Whether changed preferences are written now: when some are pending, and
/// the write is forced (on exit) or they have waited long enough.
pub fn prefs_flush_due(pending_for: Option<u64>, force: bool) -> (b: bool)
    ensures
        b == (match pending_for {
            Some(waited) => force || waited > PREFS_FLUSH_DELAY,
            None => false,
        }),
{
    match pending_for {
        Some(waited) => force || waited > PREFS_FLUSH_DELAY,
        None => false,
    }
}

/// The image an artwork request loads and caches under: the first address
/// of the candidates, unless there is none or it is empty.
pub fn texture_key(candidates: &Vec<String>) -> (r: Option<&String>)
    ensures
        candidates@.len() == 0 || candidates@[0]@.len() == 0 ==> r is None,
        candidates@.len() > 0 && candidates@[0]@.len() > 0 ==> r == Some(&candidates@[0]),
{
    if candidates.len() == 0 {
        return None;
    }
    let first = &candidates[0];
    if first.as_str().unicode_len() == 0 {
        None
    } else {
        Some(first)
    }
}

/// How far a library check has come, as shown under the navigation.
pub open spec fn progress_text(done: usize, total: usize) -> Seq<char> {
    decimal(done as nat) + "/"@ + decimal(total as nat)
}

pub fn progress_label(done: usize, total: usize) -> (s: String)
    ensures
        s@ == progress_text(done, total),
{
    let mut s = String::new();
    push_decimal(&mut s, done as u64);
    s.append("/");
    push_decimal(&mut s, total as u64);
    s
}

/// The same, on the updates screen, with the title being checked.
pub fn progress_detail(done: usize, total: usize, current: &str) -> (s: String)
    ensures
        s@ == progress_text(done, total) + " · "@ + current@,
{
    let mut s = progress_label(done, total);
    s.append(" · ");
    s.append(current);
    s
}

} // verus!
