//! The download queue screen: what it says of the queue and of each job.

use vstd::prelude::*;

use crate::format::{bytes_text, decimal, format_bytes, push_decimal};

verus! {

/// Where a chapter download stands.
pub enum DownloadState {
    Queued,
    Running { done: usize, total: usize },
    Finished,
    Failed(String),
}

/// The line under the screen's title: the queue's length and the space the
/// downloads take.
pub open spec fn queue_summary_text(queued: usize, bytes: u64) -> Seq<char> {
    decimal(queued as nat) + " queued · "@ + bytes_text(bytes) + " on disk"@
}

pub fn queue_summary(queued: usize, bytes: u64) -> (s: String)
    ensures
        s@ == queue_summary_text(queued, bytes),
{
    let mut s = String::new();
    push_decimal(&mut s, queued as u64);
    s.append(" queued · ");
    let size = format_bytes(bytes);
    s.append(size.as_str());
    s.append(" on disk");
    s
}

/// What a job's row says of its state.
pub open spec fn state_text(state: DownloadState) -> Seq<char> {
    match state {
        DownloadState::Running { done, total } => decimal(done as nat) + "/"@ + decimal(
            total as nat,
        ) + " pages"@,
        DownloadState::Queued => "waiting"@,
        DownloadState::Finished => "done"@,
        DownloadState::Failed(e) => "failed — "@ + e@,
    }
}

pub fn state_label(state: &DownloadState) -> (s: String)
    ensures
        s@ == state_text(*state),
{
    let mut s = String::new();
    match state {
        DownloadState::Running { done, total } => {
            push_decimal(&mut s, *done as u64);
            s.append("/");
            push_decimal(&mut s, *total as u64);
            s.append(" pages");
        },
        DownloadState::Queued => {
            s.append("waiting");
        },
        DownloadState::Finished => {
            s.append("done");
        },
        DownloadState::Failed(e) => {
            s.append("failed — ");
            s.append(e.as_str());
        },
    }
    s
}

/// The pause button's label.
pub fn pause_label(paused: bool) -> (s: &'static str)
    ensures
        s@ == (if paused {
            "▶ Resume"@
        } else {
            "⏸ Pause"@
        }),
{
    if paused {
        "▶ Resume"
    } else {
        "⏸ Pause"
    }
}

/// Whether the screen keeps redrawing: while some job is queued or running,
/// since their progress arrives from elsewhere.
pub fn keeps_moving(states: &Vec<DownloadState>) -> (b: bool)
    ensures
        b == exists|i: int|
            0 <= i < states@.len() && ((#[trigger] states@[i]) is Running || states@[i] is Queued),
{
    let mut i: usize = 0;
    while i < states.len()
        invariant
            0 <= i <= states@.len(),
            forall|j: int|
                0 <= j < i ==> !((#[trigger] states@[j]) is Running || states@[j] is Queued),
        decreases states@.len() - i,
    {
        match &states[i] {
            DownloadState::Running { .. } | DownloadState::Queued => {
                return true;
            },
            _ => {},
        }
        i = i + 1;
    }
    false
}

/// The downloads entry of the navigation: the inbox glyph, followed by the
/// queue's length while anything is queued.
pub open spec fn downloads_glyph_text(queued: usize) -> Seq<char> {
    if queued > 0 {
        "📥 "@ + decimal(queued as nat)
    } else {
        "📥"@
    }
}

pub fn downloads_glyph(queued: usize) -> (s: String)
    ensures
        s@ == downloads_glyph_text(queued),
{
    if queued > 0 {
        let mut s = String::from_str("📥 ");
        push_decimal(&mut s, queued as u64);
        s
    } else {
        String::from_str("📥")
    }
}

} // verus!
