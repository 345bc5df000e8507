//! Decisions that depend on the Android API level or on the URI's provider.

use vstd::prelude::*;
use vstd::arithmetic::div_mod::{lemma_fundamental_div_mod, lemma_fundamental_div_mod_converse};
use vstd::string::*;
use crate::error::Error;
use crate::models::{FileAccessMode, FileUri};
use crate::decimal::{decimal_text, i64_to_decimal};
use crate::text::{has_prefix, starts_with};

verus! {

/// API level of Android 9.
pub const ANDROID_9: i32 = 28;

/// API level of Android 10.
pub const ANDROID_10: i32 = 29;

/// API level of Android 11.
pub const ANDROID_11: i32 = 30;

/// Refuses to go on when the device's API level is below the one required.
pub fn require_api_level(required: i32, current: i32) -> (r: Result<(), Error>)
    ensures
        r is Ok <==> required <= current,
        r matches Err(e) ==> e@ == "requires Android API level "@ + decimal_text(required as int)
            + " or higher. but: "@ + decimal_text(current as int),
{
    if required <= current {
        return Ok(());
    }
    let msg = String::from_str("requires Android API level ")
        .concat(i64_to_decimal(required as i64).as_str())
        .concat(" or higher. but: ")
        .concat(i64_to_decimal(current as i64).as_str());
    Err(Error::from_message(msg))
}

/// The modes tried, in order, to open a file for writing with its contents
/// truncated: Android 9 and lower truncate with "w"; later versions may not,
/// so "wt" and "rwt" are tried first and "w" is the last resort.
pub open spec fn spec_writable_open_modes(api_level: i32) -> Seq<FileAccessMode> {
    if api_level <= ANDROID_9 {
        seq![FileAccessMode::Write]
    } else {
        seq![FileAccessMode::WriteTruncate, FileAccessMode::ReadWriteTruncate, FileAccessMode::Write]
    }
}

/// The modes to try, in order, when opening a file for writing.
pub fn writable_open_modes(api_level: i32) -> (r: Vec<FileAccessMode>)
    ensures
        r@ == spec_writable_open_modes(api_level),
{
    let mut v = Vec::new();
    if api_level <= ANDROID_9 {
        v.push(FileAccessMode::Write);
    } else {
        v.push(FileAccessMode::WriteTruncate);
        v.push(FileAccessMode::ReadWriteTruncate);
        v.push(FileAccessMode::Write);
    }
    assert(v@ =~= spec_writable_open_modes(api_level));
    v
}

/// Whether a file opened for writing must still be truncated by hand: on Android 10
/// and later, when only "w" could be used.
pub fn needs_truncate_after_open(api_level: i32, opened_with: FileAccessMode) -> (r: bool)
    ensures
        r == (api_level > ANDROID_9 && opened_with == FileAccessMode::Write),
{
    api_level > ANDROID_9 && matches!(opened_with, FileAccessMode::Write)
}

/// Whether opening in mode `m` removes the old contents by itself: "wt" and
/// "rwt" do, and "w" does on Android 9 and lower.
pub open spec fn mode_truncates(api_level: i32, m: FileAccessMode) -> bool {
    ||| m == FileAccessMode::WriteTruncate
    ||| m == FileAccessMode::ReadWriteTruncate
    ||| (m == FileAccessMode::Write && api_level <= ANDROID_9)
}

/// A file opened for writing loses its old contents: whichever of the modes
/// tried succeeds either truncates by itself or is truncated by hand afterwards.
pub proof fn law_writable_open_truncates(api_level: i32)
    ensures
        forall|i: int| 0 <= i < spec_writable_open_modes(api_level).len() ==> {
            let m = #[trigger] spec_writable_open_modes(api_level)[i];
            mode_truncates(api_level, m) || (api_level > ANDROID_9 && m == FileAccessMode::Write)
        },
{
}

/// Whether the legacy storage permission must be asked for to use public storage:
/// only below Android 10.
pub fn public_storage_needs_legacy_permission(api_level: i32) -> (r: bool)
    ensures
        r == (api_level < ANDROID_10),
{
    api_level < ANDROID_10
}

/// Whether a public file must be scanned by the media store to be registered:
/// only on Android 9 and lower; from Android 10 on, files are registered when
/// their descriptor is closed or their pending state is cleared, and a scan
/// does nothing.
pub fn public_file_needs_scan(api_level: i32) -> (r: bool)
    ensures
        r == (api_level < ANDROID_10),
{
    api_level < ANDROID_10
}

/// Whether public files have a pending state: from Android 10 on.
pub fn public_file_pending_supported(api_level: i32) -> (r: bool)
    ensures
        r == (api_level >= ANDROID_10),
{
    api_level >= ANDROID_10
}

/// Whether public storage can be used without the legacy permission: from Android 10 on.
pub fn is_public_storage_available(api_level: i32) -> (r: bool)
    ensures
        r == (ANDROID_10 <= api_level),
{
    ANDROID_10 <= api_level
}

/// Whether writes to this URI must go through the platform's output stream:
/// Google Drive drops writes made through a raw file descriptor.
pub fn need_write_file_via_kotlin(uri: &FileUri) -> (r: bool)
    ensures
        r == has_prefix(uri.uri@, "content://com.google.android.apps.docs"@),
{
    starts_with(uri.uri.as_str(), "content://com.google.android.apps.docs")
}

/// Hands out distinct identifiers for temporary files, counting up from zero
/// and wrapping around at the end of `usize`.
pub struct TmpFileIdCounter {
    next: usize,
}

impl TmpFileIdCounter {
    /// The identifier that the next call of `next_id` gives.
    pub closed spec fn peek(&self) -> usize {
        self.next
    }

    /// A counter that starts at zero.
    pub fn new() -> (r: Self)
        ensures
            r.peek() == 0,
    {
        TmpFileIdCounter { next: 0 }
    }

    /// Gives the current identifier and advances the counter by one, wrapping.
    pub fn next_id_for_tmp_file(&mut self) -> (r: usize)
        ensures
            r == old(self).peek(),
            final(self).peek() == (if old(self).peek() == usize::MAX { 0 } else { (old(self).peek() + 1) as usize }),
            final(self).peek() == id_at(old(self).peek(), 1),
    {
        let id = self.next;
        proof {
            assert(id_at(id, 0) == id);
        }
        self.next = if self.next == usize::MAX { 0 } else { self.next + 1 };
        id
    }
}

/// The identifier that a counter standing at `start` gives at its call number `k`
/// (counting from zero).
pub open spec fn id_at(start: usize, k: nat) -> usize
    decreases k,
{
    if k == 0 {
        start
    } else {
        let p = id_at(start, (k - 1) as nat);
        if p == usize::MAX { 0usize } else { (p + 1) as usize }
    }
}

proof fn lemma_id_at_mod(start: usize, k: nat)
    ensures
        id_at(start, k) == (start + k) % (usize::MAX as int + 1),
    decreases k,
{
    let m = usize::MAX as int + 1;
    if k == 0 {
        lemma_fundamental_div_mod_converse(start as int, m, 0, start as int);
    } else {
        lemma_id_at_mod(start, (k - 1) as nat);
        let a = start + k - 1;
        let p = id_at(start, (k - 1) as nat);
        lemma_fundamental_div_mod(a, m);
        let q = a / m;
        assert(a == q * m + p) by (nonlinear_arith)
            requires
                a == m * (a / m) + a % m,
                q == a / m,
                p == a % m,
        ;
        if p == usize::MAX {
            assert(a + 1 == (q + 1) * m + 0) by (nonlinear_arith)
                requires
                    a == q * m + p,
                    p + 1 == m,
            ;
            lemma_fundamental_div_mod_converse(a + 1, m, q + 1, 0);
        } else {
            lemma_fundamental_div_mod_converse(a + 1, m, q, p + 1);
        }
    }
}

/// A counter never hands out the same identifier twice within fewer calls than
/// there are `usize` values.
pub proof fn law_tmp_ids_distinct(start: usize, i: nat, j: nat)
    requires
        i < j,
        j - i <= usize::MAX,
    ensures
        id_at(start, i) != id_at(start, j),
{
    let m = usize::MAX as int + 1;
    lemma_id_at_mod(start, i);
    lemma_id_at_mod(start, j);
    let a = start + i;
    let b = start + j;
    lemma_fundamental_div_mod(a, m);
    lemma_fundamental_div_mod(b, m);
    if a % m == b % m {
        assert(false) by (nonlinear_arith)
            requires
                a == m * (a / m) + a % m,
                b == m * (b / m) + b % m,
                a % m == b % m,
                0 < b - a < m,
        {
            let t = b / m - a / m;
            assert(b - a == m * t);
            if t >= 1 {
                assert(m * t >= m);
            } else {
                assert(m * t <= 0);
            }
        }
    }
}


/// The `k`-th identifier a new counter hands out (counting calls from one) is
/// `k - 1`, as long as the counter has not wrapped around.
pub proof fn law_tmp_ids_count_from_zero(k: nat)
    requires
        1 <= k <= usize::MAX as int + 1,
    ensures
        id_at(0, (k - 1) as nat) == k - 1,
{
    lemma_id_at_mod(0, (k - 1) as nat);
    lemma_fundamental_div_mod_converse(k - 1, usize::MAX as int + 1, 0, k - 1);
}

/// What to do next while opening a file for writing.
#[derive(Debug, Clone, Copy, PartialEq, Eq)]
pub enum OpenAction {
    /// Try to open the file in this mode.
    Try(FileAccessMode),
    /// The file is open; truncate it by hand when `truncate`.
    Done { truncate: bool },
    /// Every mode failed: report the last failure.
    Fail,
}

/// The next step of opening a file for writing, after `tried` of the modes of
/// `writable_open_modes` have been tried in order, the last one having
/// succeeded when `last_succeeded`.
pub open spec fn spec_writable_open_next(api_level: i32, tried: nat, last_succeeded: bool) -> OpenAction {
    let modes = spec_writable_open_modes(api_level);
    if tried > 0 && last_succeeded {
        OpenAction::Done { truncate: api_level > ANDROID_9 && modes[tried - 1] == FileAccessMode::Write }
    } else if tried < modes.len() {
        OpenAction::Try(modes[tried as int])
    } else {
        OpenAction::Fail
    }
}

/// Decides the next step of opening a file for writing: the modes are tried in
/// order until one opens the file, which is then truncated by hand if its mode
/// may keep the old contents.
pub fn writable_open_next(api_level: i32, tried: usize, last_succeeded: bool) -> (r: OpenAction)
    requires
        tried <= spec_writable_open_modes(api_level).len(),
    ensures
        r == spec_writable_open_next(api_level, tried as nat, last_succeeded),
{
    let modes = writable_open_modes(api_level);
    if tried > 0 && last_succeeded {
        OpenAction::Done { truncate: needs_truncate_after_open(api_level, modes[tried - 1]) }
    } else if tried < modes.len() {
        OpenAction::Try(modes[tried])
    } else {
        OpenAction::Fail
    }
}

/// The actions taken while opening a file for writing, when the first `fails`
/// modes fail and the next one (if any) succeeds.
pub open spec fn open_run(api_level: i32, fails: nat) -> Seq<OpenAction>
    decreases fails,
{
    if fails == 0 {
        seq![spec_writable_open_next(api_level, 0, false)]
    } else {
        open_run(api_level, (fails - 1) as nat).push(spec_writable_open_next(api_level, fails, false))
    }
}

proof fn lemma_open_run_len(api_level: i32, fails: nat)
    ensures
        open_run(api_level, fails).len() == fails + 1,
    decreases fails,
{
    if fails > 0 {
        lemma_open_run_len(api_level, (fails - 1) as nat);
    }
}

/// Opening for writing tries the modes in order, one after another, and ends
/// with the file truncated: the first mode that opens the file is the one kept,
/// and it either truncates by itself or is truncated by hand.
pub proof fn law_writable_open_tries_in_order(api_level: i32, fails: nat)
    requires
        fails < spec_writable_open_modes(api_level).len(),
    ensures
        forall|i: int| 0 <= i <= fails ==> #[trigger] open_run(api_level, fails)[i]
            == OpenAction::Try(spec_writable_open_modes(api_level)[i]),
        ({
            let m = spec_writable_open_modes(api_level)[fails as int];
            match spec_writable_open_next(api_level, fails + 1, true) {
                OpenAction::Done { truncate } => mode_truncates(api_level, m) || truncate,
                _ => false,
            }
        }),
    decreases fails,
{
    lemma_open_run_len(api_level, fails);
    if fails > 0 {
        law_writable_open_tries_in_order(api_level, (fails - 1) as nat);
        lemma_open_run_len(api_level, (fails - 1) as nat);
        let prev = open_run(api_level, (fails - 1) as nat);
        assert(open_run(api_level, fails) == prev.push(spec_writable_open_next(api_level, fails, false)));
        assert forall|i: int| 0 <= i <= fails implies #[trigger] open_run(api_level, fails)[i]
            == OpenAction::Try(spec_writable_open_modes(api_level)[i]) by {
            if i < fails {
                assert(open_run(api_level, fails)[i] == prev[i]);
            }
        }
    }
    law_writable_open_truncates(api_level);
    assert(mode_truncates(api_level, spec_writable_open_modes(api_level)[fails as int])
        || (api_level > ANDROID_9 && spec_writable_open_modes(api_level)[fails as int] == FileAccessMode::Write));
}

/// A step of writing a new file to public storage.
#[derive(Debug, Clone, Copy, PartialEq, Eq)]
pub enum WriteNewStep {
    /// Create the file in the pending state, hidden from other apps.
    CreatePending,
    /// Open the new file for writing and write the contents.
    Write,
    /// Remove the file after a failed write, then report the failure.
    RemoveAndFail,
    /// Make the written file visible: clear its pending state, or ask the
    /// media store to scan it.
    Publish { clear_pending: bool, scan: bool },
    /// Report the failure to create the file.
    Fail,
}

/// What happened at the last step of writing a new public file.
#[derive(Debug, Clone, Copy, PartialEq, Eq)]
pub enum WriteNewOutcome {
    /// Nothing has been done yet.
    Start,
    Created,
    CreateFailed,
    Written,
    WriteFailed,
}

/// The next step after an outcome.
pub open spec fn spec_write_new_next(api_level: i32, outcome: WriteNewOutcome) -> WriteNewStep {
    match outcome {
        WriteNewOutcome::Start => WriteNewStep::CreatePending,
        WriteNewOutcome::Created => WriteNewStep::Write,
        WriteNewOutcome::CreateFailed => WriteNewStep::Fail,
        WriteNewOutcome::Written => WriteNewStep::Publish {
            clear_pending: api_level >= ANDROID_10,
            scan: api_level < ANDROID_10,
        },
        WriteNewOutcome::WriteFailed => WriteNewStep::RemoveAndFail,
    }
}

/// Decides the next step of writing a new public file: it is created pending,
/// written, and then either made visible or, if the write failed, removed.
pub fn write_new_next(api_level: i32, outcome: WriteNewOutcome) -> (r: WriteNewStep)
    ensures
        r == spec_write_new_next(api_level, outcome),
{
    match outcome {
        WriteNewOutcome::Start => WriteNewStep::CreatePending,
        WriteNewOutcome::Created => WriteNewStep::Write,
        WriteNewOutcome::CreateFailed => WriteNewStep::Fail,
        WriteNewOutcome::Written => WriteNewStep::Publish {
            clear_pending: public_file_pending_supported(api_level),
            scan: public_file_needs_scan(api_level),
        },
        WriteNewOutcome::WriteFailed => WriteNewStep::RemoveAndFail,
    }
}

/// Writing a new public file never leaves a half-written file visible: a failed
/// write removes the file, which was created hidden, and only a complete write
/// publishes it, by exactly one of clearing the pending state or scanning.
pub proof fn law_write_new_publishes_only_complete_files(api_level: i32)
    ensures
        spec_write_new_next(api_level, WriteNewOutcome::Start) == WriteNewStep::CreatePending,
        spec_write_new_next(api_level, WriteNewOutcome::WriteFailed) == WriteNewStep::RemoveAndFail,
        forall|o: WriteNewOutcome| #[trigger] spec_write_new_next(api_level, o) is Publish ==> o == WriteNewOutcome::Written,
        match spec_write_new_next(api_level, WriteNewOutcome::Written) {
            WriteNewStep::Publish { clear_pending, scan } => clear_pending != scan,
            _ => false,
        },
{
}

} // verus!
