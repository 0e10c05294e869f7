//! The entries found by a walk of the tree, and what is summed up from them
//! before anything is read.

use vstd::prelude::*;

verus! {

/// A file of at least this many bytes counts as oversized (200 MiB).
pub const OVERSIZED_FILE_BYTES: u64 = 209_715_200;

/// What one file is taken to add to the output besides its own bytes.
pub const HEADER_OVERHEAD_BYTES: u64 = 64;

/// One entry of the tree, as the walk found it.
#[derive(Clone, Debug, PartialEq, Eq)]
pub struct ScanEntry {
    /// The path, relative to the root, with `/` between its components.
    pub path: String,
    /// Whether the entry is a regular file.
    pub is_file: bool,
    /// The size in bytes. It counts for files only.
    pub size: u64,
    /// The number of levels below the root, which itself has depth 0.
    pub depth: usize,
}

/// What a walk adds up to. Counts and sizes that do not fit stand at
/// `u64::MAX`.
#[derive(Copy, Clone, Debug, PartialEq, Eq, Structural)]
pub struct RiskReport {
    pub file_count: u64,
    pub total_size_bytes: u64,
    pub max_depth: usize,
    pub oversized_file_count: u64,
    pub estimated_output_bytes: u64,
}

/// `n`, or `u64::MAX` where `n` is larger.
pub open spec fn clip(n: int) -> u64 {
    if n > u64::MAX {
        u64::MAX
    } else if n < 0 {
        0
    } else {
        n as u64
    }
}

/// The number of files among `entries`.
pub open spec fn count_files(entries: Seq<ScanEntry>) -> nat
    decreases entries.len(),
{
    if entries.len() == 0 {
        0
    } else {
        count_files(entries.drop_last()) + if entries.last().is_file {
            1nat
        } else {
            0nat
        }
    }
}

/// The sum of the sizes of the files among `entries`.
pub open spec fn total_bytes(entries: Seq<ScanEntry>) -> nat
    decreases entries.len(),
{
    if entries.len() == 0 {
        0
    } else {
        total_bytes(entries.drop_last()) + if entries.last().is_file {
            entries.last().size as nat
        } else {
            0nat
        }
    }
}

/// The largest depth among `entries`, directories counted; 0 if there are
/// none.
pub open spec fn deepest(entries: Seq<ScanEntry>) -> usize
    decreases entries.len(),
{
    if entries.len() == 0 {
        0
    } else {
        let d = deepest(entries.drop_last());
        if entries.last().depth > d {
            entries.last().depth
        } else {
            d
        }
    }
}

/// Whether an entry is an oversized file.
pub open spec fn is_oversized(entry: ScanEntry) -> bool {
    entry.is_file && entry.size >= OVERSIZED_FILE_BYTES
}

/// The number of oversized files among `entries`.
pub open spec fn count_oversized(entries: Seq<ScanEntry>) -> nat
    decreases entries.len(),
{
    if entries.len() == 0 {
        0
    } else {
        count_oversized(entries.drop_last()) + if is_oversized(entries.last()) {
            1nat
        } else {
            0nat
        }
    }
}

/// The estimate of the size of the output: the bytes of the files and a fixed
/// amount for each of them. It does not depend on the header style.
pub open spec fn estimated_output(entries: Seq<ScanEntry>) -> nat {
    total_bytes(entries) + (HEADER_OVERHEAD_BYTES as nat) * count_files(entries)
}

/// The report on `entries`.
pub open spec fn report_of(entries: Seq<ScanEntry>) -> RiskReport {
    RiskReport {
        file_count: clip(count_files(entries) as int),
        total_size_bytes: clip(total_bytes(entries) as int),
        max_depth: deepest(entries),
        oversized_file_count: clip(count_oversized(entries) as int),
        estimated_output_bytes: clip(estimated_output(entries) as int),
    }
}

/// The report `report` with one more entry taken in.
pub open spec fn recorded(report: RiskReport, entry: ScanEntry) -> RiskReport {
    RiskReport {
        file_count: if entry.is_file {
            clip(report.file_count + 1)
        } else {
            report.file_count
        },
        total_size_bytes: if entry.is_file {
            clip(report.total_size_bytes + entry.size)
        } else {
            report.total_size_bytes
        },
        max_depth: if entry.depth > report.max_depth {
            entry.depth
        } else {
            report.max_depth
        },
        oversized_file_count: if is_oversized(entry) {
            clip(report.oversized_file_count + 1)
        } else {
            report.oversized_file_count
        },
        estimated_output_bytes: if entry.is_file {
            clip(report.estimated_output_bytes + entry.size + HEADER_OVERHEAD_BYTES)
        } else {
            report.estimated_output_bytes
        },
    }
}

/// The report on two parts of a walk, from the reports on each.
pub open spec fn combined(a: RiskReport, b: RiskReport) -> RiskReport {
    RiskReport {
        file_count: clip(a.file_count + b.file_count),
        total_size_bytes: clip(a.total_size_bytes + b.total_size_bytes),
        max_depth: if b.max_depth > a.max_depth {
            b.max_depth
        } else {
            a.max_depth
        },
        oversized_file_count: clip(a.oversized_file_count + b.oversized_file_count),
        estimated_output_bytes: clip(a.estimated_output_bytes + b.estimated_output_bytes),
    }
}

impl RiskReport {
    /// The report on no entries.
    pub fn empty() -> (report: RiskReport)
        ensures
            report == report_of(Seq::<ScanEntry>::empty()),
    {
        RiskReport {
            file_count: 0,
            total_size_bytes: 0,
            max_depth: 0,
            oversized_file_count: 0,
            estimated_output_bytes: 0,
        }
    }

    /// Takes one more entry into the report.
    pub fn record(&mut self, entry: &ScanEntry)
        ensures
            *final(self) == recorded(*old(self), *entry),
    {
        if entry.depth > self.max_depth {
            self.max_depth = entry.depth;
        }
        if entry.is_file {
            self.file_count = self.file_count.saturating_add(1);
            self.total_size_bytes = self.total_size_bytes.saturating_add(entry.size);
            self.estimated_output_bytes = self.estimated_output_bytes.saturating_add(
                entry.size,
            ).saturating_add(HEADER_OVERHEAD_BYTES);
            if entry.size >= OVERSIZED_FILE_BYTES {
                self.oversized_file_count = self.oversized_file_count.saturating_add(1);
            }
        }
    }

    /// Joins the reports on two parts of a walk.
    pub fn merge(&self, other: &RiskReport) -> (report: RiskReport)
        ensures
            report == combined(*self, *other),
    {
        RiskReport {
            file_count: self.file_count.saturating_add(other.file_count),
            total_size_bytes: self.total_size_bytes.saturating_add(other.total_size_bytes),
            max_depth: if other.max_depth > self.max_depth {
                other.max_depth
            } else {
                self.max_depth
            },
            oversized_file_count: self.oversized_file_count.saturating_add(
                other.oversized_file_count,
            ),
            estimated_output_bytes: self.estimated_output_bytes.saturating_add(
                other.estimated_output_bytes,
            ),
        }
    }

    /// The report on all of `entries`.
    pub fn from_entries(entries: &Vec<ScanEntry>) -> (report: RiskReport)
        ensures
            report == report_of(entries@),
    {
        let mut report: RiskReport = RiskReport::empty();
        let mut i: usize = 0;
        while i < entries.len()
            invariant
                i <= entries.len(),
                report == report_of(entries@.take(i as int)),
            decreases entries.len() - i,
        {
            proof {
                lemma_report_of_push(entries@.take(i as int), entries@[i as int]);
                assert(entries@.take(i as int).push(entries@[i as int]) =~= entries@.take(i + 1));
            }
            report.record(&entries[i]);
            i += 1;
        }
        assert(entries@.take(i as int) =~= entries@);
        report
    }
}

/// Taking one more entry into the report on some entries gives the report on
/// all of them.
pub proof fn lemma_report_of_push(entries: Seq<ScanEntry>, entry: ScanEntry)
    ensures
        recorded(report_of(entries), entry) == report_of(entries.push(entry)),
{
    let all = entries.push(entry);
    assert(all.drop_last() =~= entries);
}

/// Joining the reports on two parts of a walk gives the report on the whole
/// walk, so a walk may be summed up in parts and in any grouping.
pub proof fn lemma_report_of_concat(first: Seq<ScanEntry>, second: Seq<ScanEntry>)
    ensures
        combined(report_of(first), report_of(second)) == report_of(first + second),
    decreases second.len(),
{
    if second.len() == 0 {
    } else {
        let all = first + second;
        assert(all.drop_last() =~= first + second.drop_last());
        lemma_report_of_concat(first, second.drop_last());
    }
}

} // verus!
