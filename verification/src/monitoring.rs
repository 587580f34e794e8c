//! Memory metrics of a live process, read off a system snapshot that the
//! caller keeps from one call to the next and that each call refreshes.
//!
//! The share of the processor and the share of the machine's memory are
//! ratios, which the host derives from what is returned here.

use crate::error::{ErrorView, SupervisorError};
use crate::types::ProcessMetrics;
use vstd::prelude::*;

verus! {

/// `sysinfo::System`, the snapshot of the machine. It is carried through as
/// it is; what it holds is named by `snapshot_memory` and
/// `snapshot_total_memory`.
#[verifier::external_type_specification]
#[verifier::external_body]
pub struct ExSystem(sysinfo::System);

/// What the snapshot holds: the resident memory in bytes of each process
/// that it lists, by process id.
pub uninterp spec fn snapshot_memory(system: sysinfo::System) -> Map<u32, u64>;

/// The machine's total memory in bytes, as the snapshot holds it.
pub uninterp spec fn snapshot_total_memory(system: sysinfo::System) -> u64;

/// `sysinfo::System::refresh_all`: the snapshot is read anew from the
/// machine. Nothing is stated of what it holds afterwards.
#[verifier::external_body]
fn refresh(system: &mut sysinfo::System) {
    system.refresh_all();
}

/// `sysinfo::System::total_memory`: the total that the snapshot holds.
#[verifier::external_body]
fn total_memory(system: &sysinfo::System) -> (bytes: u64)
    ensures
        bytes == snapshot_total_memory(*system),
{
    system.total_memory()
}

/// `sysinfo::System::process` for the `Pid` made by `Pid::from_u32`, and
/// `Process::memory` of the process found: the snapshot is looked up, not
/// the machine.
#[verifier::external_body]
fn process_memory(system: &sysinfo::System, pid: u32) -> (bytes: Option<u64>)
    ensures
        bytes == (if snapshot_memory(*system).dom().contains(pid) {
            Some(snapshot_memory(*system)[pid])
        } else {
            None
        }),
{
    system.process(sysinfo::Pid::from_u32(pid)).map(|p| p.memory())
}

/// `sysinfo::System::processes`, each entry handed out as its `Pid::as_u32`
/// and its `Process::memory`: every process of the snapshot once, in an
/// order that is not stated.
#[verifier::external_body]
fn process_readings(system: &sysinfo::System) -> (readings: Vec<(u32, u64)>)
    ensures
        is_listing_of(readings@, snapshot_memory(*system)),
{
    system.processes().iter().map(|(pid, p)| (pid.as_u32(), p.memory())).collect()
}

/// The readings list every entry of the map once, and nothing else.
pub open spec fn is_listing_of(readings: Seq<(u32, u64)>, memory: Map<u32, u64>) -> bool {
    &&& forall|i: int|
        0 <= i < readings.len() ==> memory.dom().contains((#[trigger] readings[i]).0)
            && memory[readings[i].0] == readings[i].1
    &&& forall|i: int, j: int|
        0 <= i < j < readings.len() ==> (#[trigger] readings[i]).0 != (#[trigger] readings[j]).0
    &&& forall|pid: u32|
        memory.dom().contains(pid) ==> exists|i: int|
            0 <= i < readings.len() && (#[trigger] readings[i]).0 == pid
}

/// The bytes in a megabyte.
pub const BYTES_PER_MB: u64 = 1048576;

/// A size in whole megabytes, rounded up.
pub open spec fn megabytes(bytes: u64) -> u64 {
    if bytes % BYTES_PER_MB == 0 {
        bytes / BYTES_PER_MB
    } else {
        (bytes / BYTES_PER_MB + 1) as u64
    }
}

/// The metrics of a process that uses `bytes` of a machine with `total`.
pub open spec fn metrics_of(bytes: u64, total: u64) -> ProcessMetrics {
    ProcessMetrics { memory_mb: megabytes(bytes), memory_bytes: bytes, total_memory: total }
}

/// What a sample of `pid` returns on a snapshot: its metrics, or `NotFound`
/// where the snapshot does not list the process.
pub open spec fn sample_result(memory: Map<u32, u64>, total: u64, pid: u32) -> Result<
    ProcessMetrics,
    ErrorView,
> {
    if memory.dom().contains(pid) {
        Ok(metrics_of(memory[pid], total))
    } else {
        Err(ErrorView::NotFound)
    }
}

/// A size in megabytes is the least number of megabytes that holds it.
pub proof fn lemma_megabytes_is_ceiling(bytes: u64)
    ensures
        megabytes(bytes) * BYTES_PER_MB >= bytes,
        megabytes(bytes) > 0 ==> (megabytes(bytes) - 1) * BYTES_PER_MB < bytes,
        bytes == 0 <==> megabytes(bytes) == 0,
{
}

pub struct Monitoring;

impl Monitoring {
    pub fn memory_megabytes(bytes: u64) -> (mb: u64)
        ensures
            mb == megabytes(bytes),
    {
        if bytes % BYTES_PER_MB == 0 {
            bytes / BYTES_PER_MB
        } else {
            bytes / BYTES_PER_MB + 1
        }
    }

    /// The metrics for what a snapshot says of a process: `memory_bytes` is
    /// `None` where the snapshot does not list it.
    pub fn metrics_from(memory_bytes: Option<u64>, total_memory: u64) -> (r: Result<
        ProcessMetrics,
        SupervisorError,
    >)
        ensures
            match memory_bytes {
                Some(bytes) => r == Ok::<ProcessMetrics, SupervisorError>(
                    metrics_of(bytes, total_memory),
                ),
                None => r matches Err(SupervisorError::NotFound),
            },
    {
        match memory_bytes {
            Some(bytes) => Ok(
                ProcessMetrics {
                    memory_mb: Monitoring::memory_megabytes(bytes),
                    memory_bytes: bytes,
                    total_memory,
                },
            ),
            None => Err(SupervisorError::NotFound),
        }
    }

    /// Refreshes the snapshot and samples the process `pid` on it. The
    /// process may have gone since its pid was recorded: then the sample
    /// fails with `NotFound`.
    pub fn get_process_metrics(pid: u32, system: &mut sysinfo::System) -> (r: Result<
        ProcessMetrics,
        SupervisorError,
    >)
        ensures
            match r {
                Ok(metrics) => sample_result(
                    snapshot_memory(*final(system)),
                    snapshot_total_memory(*final(system)),
                    pid,
                ) == Ok::<ProcessMetrics, ErrorView>(metrics),
                Err(e) => sample_result(
                    snapshot_memory(*final(system)),
                    snapshot_total_memory(*final(system)),
                    pid,
                ) == Err::<ProcessMetrics, ErrorView>(e@),
            },
    {
        refresh(system);
        let total = total_memory(system);
        Monitoring::metrics_from(process_memory(system, pid), total)
    }

    /// Refreshes the snapshot and samples every process that it lists.
    pub fn get_all_processes_metrics(system: &mut sysinfo::System) -> (r: Vec<(u32, ProcessMetrics)>)
        ensures
            forall|i: int|
                0 <= i < r@.len() ==> snapshot_memory(*final(system)).dom().contains(
                    (#[trigger] r@[i]).0,
                ) && r@[i].1 == metrics_of(
                    snapshot_memory(*final(system))[r@[i].0],
                    snapshot_total_memory(*final(system)),
                ),
            forall|i: int, j: int|
                0 <= i < j < r@.len() ==> (#[trigger] r@[i]).0 != (#[trigger] r@[j]).0,
            forall|pid: u32|
                snapshot_memory(*final(system)).dom().contains(pid) ==> exists|i: int|
                    0 <= i < r@.len() && (#[trigger] r@[i]).0 == pid,
    {
        refresh(system);
        let total = total_memory(system);
        let readings = process_readings(system);
        let r = Monitoring::metrics_for_all(&readings, total);
        proof {
            assert forall|pid: u32| snapshot_memory(*system).dom().contains(pid) implies exists|
                i: int,
            |
                0 <= i < r@.len() && (#[trigger] r@[i]).0 == pid by {
                let i = choose|i: int|
                    0 <= i < readings@.len() && (#[trigger] readings@[i]).0 == pid;
                assert(r@[i].0 == pid);
            }
        }
        r
    }

    /// The metrics for each reading of a pid and its memory in bytes.
    pub fn metrics_for_all(readings: &Vec<(u32, u64)>, total_memory: u64) -> (r: Vec<
        (u32, ProcessMetrics),
    >)
        ensures
            r@.len() == readings@.len(),
            forall|i: int|
                0 <= i < r@.len() ==> (#[trigger] r@[i]).0 == readings@[i].0 && r@[i].1
                    == metrics_of(readings@[i].1, total_memory),
    {
        let mut r: Vec<(u32, ProcessMetrics)> = Vec::new();
        let mut i: usize = 0;
        while i < readings.len()
            invariant
                i <= readings.len(),
                r@.len() == i,
                forall|j: int|
                    0 <= j < i ==> (#[trigger] r@[j]).0 == readings@[j].0 && r@[j].1 == metrics_of(
                        readings@[j].1,
                        total_memory,
                    ),
            decreases readings.len() - i,
        {
            let (pid, bytes) = readings[i];
            r.push(
                (
                    pid,
                    ProcessMetrics {
                        memory_mb: Monitoring::memory_megabytes(bytes),
                        memory_bytes: bytes,
                        total_memory,
                    },
                ),
            );
            i += 1;
        }
        r
    }
}

} // verus!
