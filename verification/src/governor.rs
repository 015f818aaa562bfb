use vstd::prelude::*;

use crate::errors::ExecError;

verus! {

/// Outcome of resolving a request's optional workgroup name into a live
/// resource allowance.
#[derive(Debug, Clone, Copy, PartialEq, Eq, Structural)]
pub enum WorkGroupQuery {
    /// No workgroup accompanies the request.
    Absent,
    /// A name was given but does not parse as a known resource class.
    UnknownClass,
    /// The live allowance snapshot, in percent of the node's resources.
    Resolved { cpu_percent: u64, mem_percent: u64 },
    /// The lookup backend itself failed.
    LookupFailed,
}

/// A resolved allowance is a percentage pair in (0, 100].
pub open spec fn spec_valid_allowance(q: WorkGroupQuery) -> bool {
    match q {
        WorkGroupQuery::Resolved { cpu_percent, mem_percent } => {
            0 < cpu_percent <= 100 && 0 < mem_percent <= 100
        },
        _ => true,
    }
}

/// The partition count after the governor: scaled by the CPU allowance only
/// when CPU limiting is switched on.
pub open spec fn spec_scaled_partitions(q: WorkGroupQuery, tp: int, cpu_limit_enabled: bool) -> int {
    match q {
        WorkGroupQuery::Resolved { cpu_percent, mem_percent } => {
            if cpu_limit_enabled {
                tp * cpu_percent / 100
            } else {
                tp
            }
        },
        _ => tp,
    }
}

/// The memory ceiling after the governor: always scaled by the memory
/// allowance of a resolved workgroup.
pub open spec fn spec_scaled_memory(q: WorkGroupQuery, mem: int) -> int {
    match q {
        WorkGroupQuery::Resolved { cpu_percent, mem_percent } => mem * mem_percent / 100,
        _ => mem,
    }
}

/// Scales a nominal (partition count, memory ceiling) pair by a workgroup's
/// live allowance.
///
/// The memory ceiling is always scaled by `mem_percent / 100`; the partition
/// count is scaled by `cpu_percent / 100` only when CPU limiting is switched
/// on, so an operator can cap memory sharing without touching parallelism.
/// An absent or unknown workgroup passes the nominal values through — that is
/// not an error; only a failed lookup aborts, since proceeding with the wrong
/// limits would break tenant isolation.
pub fn get_cpu_and_mem_limit(
    work_group: WorkGroupQuery,
    target_partitions: usize,
    memory_size: usize,
    cpu_limit_enabled: bool,
) -> (r: Result<(usize, usize), ExecError>)
    requires
        spec_valid_allowance(work_group),
        target_partitions * 100 <= usize::MAX,
        memory_size * 100 <= usize::MAX,
    ensures
        r is Ok <==> !(work_group is LookupFailed),
        work_group is Absent ==> r == Ok::<(usize, usize), ExecError>(
            (target_partitions, memory_size),
        ),
        work_group is UnknownClass ==> r == Ok::<(usize, usize), ExecError>(
            (target_partitions, memory_size),
        ),
        work_group is LookupFailed ==> r == Err::<(usize, usize), ExecError>(
            ExecError::ResourceResolutionFailure,
        ),
        r matches Ok(pair) ==> pair.0 == spec_scaled_partitions(
            work_group,
            target_partitions as int,
            cpu_limit_enabled,
        ) && pair.1 == spec_scaled_memory(work_group, memory_size as int),
{
    match work_group {
        WorkGroupQuery::Absent => Ok((target_partitions, memory_size)),
        WorkGroupQuery::UnknownClass => Ok((target_partitions, memory_size)),
        WorkGroupQuery::LookupFailed => Err(ExecError::ResourceResolutionFailure),
        WorkGroupQuery::Resolved { cpu_percent, mem_percent } => {
            let cpu = cpu_percent as usize;
            let mem = mem_percent as usize;
            proof {
                assert(target_partitions * cpu <= target_partitions * 100) by (nonlinear_arith)
                    requires
                        cpu <= 100,
                ;
                assert(memory_size * mem <= memory_size * 100) by (nonlinear_arith)
                    requires
                        mem <= 100,
                ;
            }
            let scaled_partitions: usize = if cpu_limit_enabled {
                target_partitions * cpu / 100
            } else {
                target_partitions
            };
            let scaled_memory: usize = memory_size * mem / 100;
            Ok((scaled_partitions, scaled_memory))
        },
    }
}

} // verus!
