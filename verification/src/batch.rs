//! The decisions of one tagging run over an album: whether anything is to be
//! written, whether the cover change is shown, and whether the run goes on after
//! the confirmation prompt.
use crate::cover::CoverStatus;
use vstd::prelude::*;

verus! {

/// What a run does once the cover status and the tracks' differences are known.
#[derive(Debug, Clone, Copy)]
pub struct BatchPlan {
    /// Whether anything differs from the files: without it the run ends there.
    pub has_changes: bool,
    /// Whether the cover change is shown with the differences.
    pub show_cover_diff: bool,
}

/// Plans a run from the cover status and, for each track, whether its tags differ
/// from the targets.
pub fn plan_batch(cover_status: CoverStatus, track_changed: &Vec<bool>) -> (p: BatchPlan)
    ensures
        p.has_changes == (cover_status == CoverStatus::Update || track_changed@.contains(true)),
        p.show_cover_diff == (cover_status == CoverStatus::Update),
{
    let cover_update = cover_status == CoverStatus::Update;
    let mut has_changes = cover_update;
    let mut i: usize = 0;
    while i < track_changed.len()
        invariant
            i <= track_changed@.len(),
            has_changes == (cover_update || track_changed@.take(i as int).contains(true)),
        decreases track_changed@.len() - i,
    {
        proof {
            let t = track_changed@.take(i + 1);
            assert(t.drop_last() =~= track_changed@.take(i as int));
            assert(t.contains(true) == (track_changed@.take(i as int).contains(true) || track_changed@[i as int])) by {
                if t.contains(true) {
                    let j = choose|j: int| 0 <= j < t.len() && t[j] == true;
                    if j < i {
                        assert(track_changed@.take(i as int)[j] == true);
                    }
                }
                if track_changed@.take(i as int).contains(true) {
                    let j = choose|j: int| 0 <= j < i && track_changed@.take(i as int)[j] == true;
                    assert(t[j] == true);
                }
                if track_changed@[i as int] {
                    assert(t[i as int] == true);
                }
            }
        }
        if track_changed[i] {
            has_changes = true;
        }
        i = i + 1;
    }
    assert(track_changed@.take(track_changed@.len() as int) =~= track_changed@);
    BatchPlan { has_changes, show_cover_diff: cover_update }
}

/// Whether a run with changes goes on to write: always without a prompt, and
/// with one only when the user confirms.
pub fn proceed(prompt: bool, confirmed: bool) -> (b: bool)
    ensures
        b == (!prompt || confirmed),
{
    !prompt || confirmed
}

} // verus!
