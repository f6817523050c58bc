//! The verdict of the journal test program, from what its calls returned.
use vstd::prelude::*;
use vstd::string::StringSliceAdditionalSpecFns;
use super::abi::{FsStat, JournalDiagnostics, BOOT_MODE_RECOVER};
use super::journal::{bytes_equal, expected_updated_bytes};

verus! {

/// The test's checks: the file holds the updated bytes; the counters show a
/// transaction (or, in recovery mode, a committed log seen), the log and
/// commit written before the home copy, a replay in recovery mode, and a
/// passing `fsck` with the root holding one entry and the log clear.
#[derive(Clone, Copy, PartialEq, Eq, Structural)]
pub struct JournalVerdict {
    pub data_match: bool,
    pub tx_pass: bool,
    pub order_pass: bool,
    pub replay_pass: bool,
    pub fsck_pass: bool,
}

impl JournalVerdict {
    /// Every check passed.
    pub open spec fn passed(self) -> bool {
        self.data_match && self.tx_pass && self.order_pass && self.replay_pass && self.fsck_pass
    }

    /// Whether every check passed.
    pub fn all_pass(&self) -> (r: bool)
        ensures
            r == self.passed(),
    {
        self.data_match && self.tx_pass && self.order_pass && self.replay_pass && self.fsck_pass
    }
}

/// The checks of a verify or recover boot, from the boot mode, the counters,
/// the file's `stat`, the root's `stat` (`root_result` and `root`), and the
/// bytes read from the file.
pub fn journal_verdict(
    mode: u64,
    diag: &JournalDiagnostics,
    stat: &FsStat,
    root_result: isize,
    root: &FsStat,
    data: &[u8],
) -> (r: JournalVerdict)
    ensures
        r.data_match == (data@ == "after-crash-journal-replay\n".spec_bytes()),
        r.tx_pass == (if mode == BOOT_MODE_RECOVER {
            diag.committed_logs_seen >= 1 && diag.last_tx_seq >= 1
        } else {
            diag.tx_begins >= 1 && diag.tx_commits >= 1
        }),
        r.order_pass == (if mode == BOOT_MODE_RECOVER {
            diag.committed_logs_seen >= 1 && diag.home_writes >= 1
        } else {
            diag.log_writes >= 1 && diag.commit_writes >= 1 && diag.home_writes >= 1
        }),
        r.replay_pass == (mode == BOOT_MODE_RECOVER ==> diag.recovery_replays >= 1 && diag.committed_logs_seen >= 1),
        r.fsck_pass == (diag.fsck_passes >= 1 && root_result == 0 && root.child_count == 1
            && stat.journal_active == 0 && stat.journal_committed == 0),
{
    let recover = mode == BOOT_MODE_RECOVER;
    let tx_pass = if recover {
        diag.committed_logs_seen >= 1 && diag.last_tx_seq >= 1
    } else {
        diag.tx_begins >= 1 && diag.tx_commits >= 1
    };
    let order_pass = if recover {
        diag.committed_logs_seen >= 1 && diag.home_writes >= 1
    } else {
        diag.log_writes >= 1 && diag.commit_writes >= 1 && diag.home_writes >= 1
    };
    let replay_pass = !recover || (diag.recovery_replays >= 1 && diag.committed_logs_seen >= 1);
    let fsck_pass = diag.fsck_passes >= 1 && root_result == 0 && root.child_count == 1
        && stat.journal_active == 0 && stat.journal_committed == 0;
    let data_match = bytes_equal(data, expected_updated_bytes());
    JournalVerdict { data_match, tx_pass, order_pass, replay_pass, fsck_pass }
}

} // verus!
