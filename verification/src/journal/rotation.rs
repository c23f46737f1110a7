//! Log rotation: when the active file is rotated, and which renames a
//! rotation performs.
use crate::text::{dec, push_decimal, push_str};
use vstd::prelude::*;

verus! {

/// 5 MiB.
pub const DEFAULT_MAX_BYTES: u64 = 5242880;

pub const DEFAULT_KEEP_BACKUPS: u32 = 5;

/// Controls when and how log files are rotated.
///
/// Rotation scheme: `app.log` -> `app.log.1` -> `app.log.2` ... up to
/// `keep_backups`; the oldest backup beyond `keep_backups` is dropped.
#[derive(Debug, Clone, Copy, PartialEq, Eq, Structural)]
pub struct LogPolicy {
    /// Maximum file size in bytes before rotation is triggered.
    pub max_bytes: u64,
    /// Number of rotated backups to keep; 0 deletes the log on rotation.
    pub keep_backups: u32,
}

impl Default for LogPolicy {
    fn default() -> (p: Self)
        ensures
            p == (LogPolicy { max_bytes: DEFAULT_MAX_BYTES, keep_backups: DEFAULT_KEEP_BACKUPS }),
    {
        LogPolicy { max_bytes: DEFAULT_MAX_BYTES, keep_backups: DEFAULT_KEEP_BACKUPS }
    }
}

impl LogPolicy {
    /// A policy rotating at `max_bytes` and keeping `keep_backups` backups.
    pub fn new(max_bytes: u64, keep_backups: u32) -> (p: Self)
        ensures
            p == (LogPolicy { max_bytes, keep_backups }),
    {
        LogPolicy { max_bytes, keep_backups }
    }
}

/// The name of backup `n` of the log at `base`: `base.n`.
pub open spec fn rotated_name_text(base: Seq<char>, n: u32) -> Seq<char> {
    base + "."@ + dec(n as nat)
}

/// The name of backup `n` of the log at `base`: `base.n`.
pub fn rotated_name(base: &str, n: u32) -> (s: String)
    ensures
        s@ == rotated_name_text(base@, n),
{
    let mut s = String::new();
    push_str(&mut s, base);
    push_str(&mut s, ".");
    push_decimal(&mut s, n as u64);
    assert(s@ =~= rotated_name_text(base@, n));
    s
}

/// One step of a rotation.
#[derive(Debug, Clone, Copy, PartialEq, Eq, Structural)]
pub enum RotationStep {
    /// Delete the active log.
    RemoveActive,
    /// Rename backup `from` to backup `to`, if backup `from` exists.
    ShiftBackup { from: u32, to: u32 },
    /// Rename the active log to backup 1.
    ActiveToFirst,
}

/// The steps of a rotation keeping `keep` backups: with no backups the
/// active log is deleted; otherwise each backup moves up one slot, newest
/// last, and the active log becomes backup 1.
pub open spec fn rotation_plan(keep: u32) -> Seq<RotationStep> {
    if keep == 0 {
        seq![RotationStep::RemoveActive]
    } else {
        Seq::new(
            (keep - 1) as nat,
            |k: int| RotationStep::ShiftBackup { from: (keep - 1 - k) as u32, to: (keep - k) as u32 },
        ).push(RotationStep::ActiveToFirst)
    }
}

/// The steps that rotate a log keeping `keep_backups` backups, in order.
pub fn rotation_steps(keep_backups: u32) -> (steps: Vec<RotationStep>)
    ensures
        steps@ == rotation_plan(keep_backups),
{
    let mut steps: Vec<RotationStep> = Vec::new();
    if keep_backups == 0 {
        steps.push(RotationStep::RemoveActive);
        assert(steps@ =~= rotation_plan(keep_backups));
        return steps;
    }
    let mut i: u32 = keep_backups - 1;
    while i >= 1
        invariant
            0 <= i < keep_backups,
            steps@ =~= Seq::new(
                (keep_backups - 1 - i) as nat,
                |k: int| RotationStep::ShiftBackup { from: (keep_backups - 1 - k) as u32, to: (keep_backups - k) as u32 },
            ),
        decreases i,
    {
        steps.push(RotationStep::ShiftBackup { from: i, to: i + 1 });
        i = i - 1;
    }
    steps.push(RotationStep::ActiveToFirst);
    assert(steps@ =~= rotation_plan(keep_backups));
    steps
}

/// What slot `k` holds: 0 is the active log, `n` is backup `n`.
pub open spec fn slot<T>(files: Map<u32, T>, k: u32) -> Option<T> {
    if files.dom().contains(k) {
        Some(files[k])
    } else {
        None
    }
}

/// Renames slot `from` to slot `to`, replacing what `to` held, when `from`
/// exists.
pub open spec fn rename_slot<T>(files: Map<u32, T>, from: u32, to: u32) -> Map<u32, T> {
    if files.dom().contains(from) {
        files.remove(from).insert(to, files[from])
    } else {
        files
    }
}

/// The files after one step of a rotation.
pub open spec fn apply_step<T>(files: Map<u32, T>, step: RotationStep) -> Map<u32, T> {
    match step {
        RotationStep::RemoveActive => files.remove(0),
        RotationStep::ShiftBackup { from, to } => rename_slot(files, from, to),
        RotationStep::ActiveToFirst => rename_slot(files, 0, 1),
    }
}

/// The files after the steps, in order.
pub open spec fn apply_steps<T>(files: Map<u32, T>, steps: Seq<RotationStep>) -> Map<u32, T>
    decreases steps.len(),
{
    if steps.len() == 0 {
        files
    } else {
        apply_step(apply_steps(files, steps.drop_last()), steps.last())
    }
}

/// What slot `k` holds after a rotation keeping `keep` backups: the active
/// log is gone; backup 1 is the old active log; backup `k` is old backup
/// `k - 1`; the top backup keeps its old content only when there was
/// nothing to move onto it; slots above `keep` are untouched.
pub open spec fn rotated_slot<T>(files: Map<u32, T>, keep: u32, k: u32) -> Option<T> {
    if keep == 0 {
        if k == 0 {
            None
        } else {
            slot(files, k)
        }
    } else if k == 0 {
        None
    } else if k == 1 {
        if slot(files, 0) is Some {
            slot(files, 0)
        } else if keep == 1 {
            slot(files, 1)
        } else {
            None
        }
    } else if k < keep {
        slot(files, (k - 1) as u32)
    } else if k == keep {
        if slot(files, (k - 1) as u32) is Some {
            slot(files, (k - 1) as u32)
        } else {
            slot(files, k)
        }
    } else {
        slot(files, k)
    }
}

/// The first `j` backup shifts of a rotation keeping `keep` backups.
pub open spec fn shifts(keep: u32, j: nat) -> Seq<RotationStep> {
    Seq::new(j, |k: int| RotationStep::ShiftBackup { from: (keep - 1 - k) as u32, to: (keep - k) as u32 })
}

/// What slot `k` holds after the first `j` shifts.
pub open spec fn shifted_slot<T>(files: Map<u32, T>, keep: u32, j: nat, k: u32) -> Option<T> {
    if j == 0 || k < keep - j {
        slot(files, k)
    } else if k == keep - j {
        None
    } else if k < keep {
        slot(files, (k - 1) as u32)
    } else if k == keep {
        if slot(files, (keep - 1) as u32) is Some {
            slot(files, (keep - 1) as u32)
        } else {
            slot(files, keep)
        }
    } else {
        slot(files, k)
    }
}

proof fn lemma_shifts<T>(files: Map<u32, T>, keep: u32, j: nat)
    requires
        1 <= keep,
        j <= keep - 1,
    ensures
        forall|k: u32| #[trigger] slot(apply_steps(files, shifts(keep, j)), k) == shifted_slot(files, keep, j, k),
    decreases j,
{
    if j == 0 {
        assert(shifts(keep, 0) =~= Seq::<RotationStep>::empty());
    } else {
        let jj = (j - 1) as nat;
        lemma_shifts(files, keep, jj);
        assert(shifts(keep, j).drop_last() =~= shifts(keep, jj));
        let before = apply_steps(files, shifts(keep, jj));
        let from = (keep - 1 - jj) as u32;
        let to = (keep - jj) as u32;
        assert(shifts(keep, j).last() == RotationStep::ShiftBackup { from, to });
        let after = rename_slot(before, from, to);
        assert(apply_steps(files, shifts(keep, j)) == after);
        assert(slot(before, from) == slot(files, from));
        assert forall|k: u32| #[trigger] slot(after, k) == shifted_slot(files, keep, j, k) by {
            assert(slot(before, k) == shifted_slot(files, keep, jj, k));
            assert(slot(before, to) == shifted_slot(files, keep, jj, to));
        }
    }
}

/// A rotation keeping `keep` backups moves the files as the documentation
/// says: with no backups the active log is deleted; otherwise the active log
/// becomes backup 1, each backup moves up one slot, what would go past
/// `keep` is dropped, and slots above `keep` are untouched.
pub proof fn lemma_rotation_moves_files<T>(files: Map<u32, T>, keep: u32)
    ensures
        forall|k: u32| #[trigger] slot(apply_steps(files, rotation_plan(keep)), k) == rotated_slot(files, keep, k),
{
    if keep == 0 {
        assert(rotation_plan(keep).drop_last() =~= Seq::<RotationStep>::empty());
        assert(apply_steps(files, rotation_plan(keep).drop_last()) == files);
        assert(apply_steps(files, rotation_plan(keep)) == files.remove(0));
    } else {
        let j = (keep - 1) as nat;
        lemma_shifts(files, keep, j);
        assert(rotation_plan(keep).drop_last() =~= shifts(keep, j));
        let mid = apply_steps(files, shifts(keep, j));
        assert(apply_steps(files, rotation_plan(keep)) == rename_slot(mid, 0, 1));
        assert(slot(mid, 0) == shifted_slot(files, keep, j, 0));
        assert(slot(mid, 1) == shifted_slot(files, keep, j, 1));
        assert forall|k: u32| #[trigger] slot(apply_steps(files, rotation_plan(keep)), k) == rotated_slot(files, keep, k) by {
            assert(slot(mid, k) == shifted_slot(files, keep, j, k));
        }
    }
}

/// A write of `write_len` bytes rotates the log first when rotation is on
/// (`max_bytes > 0`), the file is not empty, and the write would take it
/// past `max_bytes` (the sum saturating at `u64::MAX`).
pub open spec fn rotates_before_write(policy: LogPolicy, current_size: u64, write_len: u64) -> bool {
    &&& policy.max_bytes > 0
    &&& current_size > 0
    &&& (if current_size + write_len > u64::MAX { u64::MAX as int } else { current_size + write_len })
        > policy.max_bytes
}

/// The size and rotation decisions of a rotating log file.
#[derive(Debug, Clone, Copy)]
pub struct RotationTracker {
    pub policy: LogPolicy,
    /// Bytes in the active file.
    pub current_size: u64,
}

impl RotationTracker {
    /// Start tracking a log file that holds `existing_len` bytes (`None` when
    /// it does not exist). Returns the tracker and whether the file must be
    /// rotated before it is opened: it is when it already holds `max_bytes`
    /// or more.
    pub fn open(policy: LogPolicy, existing_len: Option<u64>) -> (r: (Self, bool))
        ensures
            r.1 == (existing_len matches Some(len) && len >= policy.max_bytes),
            r.0.policy == policy,
            r.0.current_size == match existing_len {
                Some(len) => if len >= policy.max_bytes { 0 } else { len },
                None => 0,
            },
    {
        match existing_len {
            Some(len) => {
                if len >= policy.max_bytes {
                    (RotationTracker { policy, current_size: 0 }, true)
                } else {
                    (RotationTracker { policy, current_size: len }, false)
                }
            },
            None => (RotationTracker { policy, current_size: 0 }, false),
        }
    }

    /// Account for writing one line of `line_len` bytes plus its newline,
    /// returning whether the file must be rotated before the write.
    pub fn before_write(&mut self, line_len: u64) -> (rotate: bool)
        requires
            line_len < u64::MAX,
            rotates_before_write(old(self).policy, old(self).current_size, (line_len + 1) as u64) || old(
                self,
            ).current_size + line_len + 1 <= u64::MAX,
        ensures
            rotate == rotates_before_write(old(self).policy, old(self).current_size, (line_len + 1) as u64),
            final(self).policy == old(self).policy,
            final(self).current_size == if rotate {
                line_len + 1
            } else {
                old(self).current_size + line_len + 1
            },
    {
        let write_len = line_len + 1;
        let rotate = self.policy.max_bytes > 0 && self.current_size > 0 && self.current_size.saturating_add(
            write_len,
        ) > self.policy.max_bytes;
        if rotate {
            self.current_size = 0;
        } else {
            assert(self.current_size + write_len <= u64::MAX);
        }
        self.current_size = self.current_size + write_len;
        rotate
    }
}

/// After writes that each rotated when needed, the active file never grows
/// past `max_bytes` unless a single line alone is larger.
pub proof fn lemma_rotation_bounds_size(policy: LogPolicy, current_size: u64, write_len: u64)
    requires
        policy.max_bytes > 0,
        current_size <= policy.max_bytes,
        write_len <= policy.max_bytes,
    ensures
        ({
            let next = if rotates_before_write(policy, current_size, write_len) {
                write_len
            } else {
                (current_size + write_len) as u64
            };
            next <= policy.max_bytes
        }),
{
}

} // verus!
