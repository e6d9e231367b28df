use vstd::prelude::*;

verus! {

/// What one look at a file shows: its modification time (in nanoseconds since the Unix epoch,
/// negative before it) and its length.
#[derive(Debug, Clone, Copy, PartialEq, Eq, Structural)]
pub struct FileStamp {
    pub modified: i128,
    pub len: u64,
}

/// What follows one look at a file that is being copied into the source directory.
#[derive(Debug, Clone, Copy, PartialEq, Eq, Structural)]
pub enum Verdict {
    /// the file did not change since the previous look: it can be copied
    Stable,
    /// look again after the check period
    Wait,
    /// the file kept changing for all the allowed looks
    GaveUp,
}

/// How many times a file is looked at before the copy gives up.
pub const MAX_REPEATS: u32 = 30;

/// The watch on one file: the stamp of the previous look, and how many looks remain.
pub struct StabilityCheck {
    last: Option<FileStamp>,
    repeats_left: u32,
}

/// One look at the file. A look that could not read the modification time changes nothing but
/// the count; a first look is remembered; a look equal to the previous one finds the file stable;
/// a different look is remembered in its place. Each look that does not find the file stable uses
/// one of the remaining looks, and the last one gives up.
pub open spec fn observe_spec(last: Option<FileStamp>, left: u32, seen: Option<FileStamp>) -> (
    Option<FileStamp>,
    u32,
    Verdict,
) {
    if seen is Some && last is Some && last == seen {
        (last, left, Verdict::Stable)
    } else {
        let next = if seen is Some {
            seen
        } else {
            last
        };
        let left2 = (left - 1) as u32;
        (next, left2, if left2 == 0 {
            Verdict::GaveUp
        } else {
            Verdict::Wait
        })
    }
}

impl StabilityCheck {
    pub closed spec fn last_seen(&self) -> Option<FileStamp> {
        self.last
    }

    pub closed spec fn spec_repeats_left(&self) -> u32 {
        self.repeats_left
    }

    /// A watch that has seen nothing yet and allows all its looks.
    pub fn new() -> (r: Self)
        ensures
            r.last_seen() is None,
            r.spec_repeats_left() == MAX_REPEATS,
    {
        StabilityCheck { last: None, repeats_left: MAX_REPEATS }
    }

    pub fn repeats_left(&self) -> (r: u32)
        ensures
            r == self.spec_repeats_left(),
    {
        self.repeats_left
    }

    /// Takes one look at the file (`None` when its modification time could not be read).
    pub fn observe(&mut self, seen: Option<FileStamp>) -> (v: Verdict)
        requires
            old(self).spec_repeats_left() > 0,
        ensures
            (final(self).last_seen(), final(self).spec_repeats_left(), v) == observe_spec(
                old(self).last_seen(),
                old(self).spec_repeats_left(),
                seen,
            ),
    {
        if let (Some(s), Some(l)) = (seen, self.last) {
            if s == l {
                return Verdict::Stable;
            }
        }
        if seen.is_some() {
            self.last = seen;
        }
        self.repeats_left = self.repeats_left - 1;
        if self.repeats_left == 0 {
            Verdict::GaveUp
        } else {
            Verdict::Wait
        }
    }
}

/// A file is found stable only by a look equal to the previous one; every other look uses one of
/// the remaining looks, and the watch gives up exactly when none remain.
pub proof fn lemma_observe_counts(last: Option<FileStamp>, left: u32, seen: Option<FileStamp>)
    requires
        left > 0,
    ensures
        observe_spec(last, left, seen).2 == Verdict::Stable <==> (seen is Some && last == seen),
        observe_spec(last, left, seen).2 != Verdict::Stable ==> observe_spec(last, left, seen).1
            == left - 1,
        observe_spec(last, left, seen).2 == Verdict::GaveUp <==> (observe_spec(last, left, seen).2
            != Verdict::Stable && left == 1),
{
}

/// A file that does not change is found stable at the second look of a new watch.
pub proof fn lemma_unchanged_file_is_stable(stamp: FileStamp)
    ensures
        observe_spec(None, MAX_REPEATS, Some(stamp)) == (Some(stamp), (MAX_REPEATS - 1) as u32, Verdict::Wait),
        observe_spec(Some(stamp), (MAX_REPEATS - 1) as u32, Some(stamp)).2 == Verdict::Stable,
{
}

} // verus!
