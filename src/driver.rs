use vstd::prelude::*;

use crate::bytes::le_bytes;
use crate::matrix::{AugmentedMatrix, MAX_DIMENSION};
use crate::readback::{decode_solution, le_bytes_of, solution_outcome};

verus! {

/// The scalar record handed to one elimination dispatch.
#[derive(Clone, Copy, Debug, PartialEq, Eq, Structural)]
pub struct PushConstants {
    pub pivot_row: u32,
    pub pivot_col: u32,
}

impl PushConstants {
    /// The 8-byte push-constant block: `pivot_row` then `pivot_col`, each a
    /// little-endian 32-bit word.
    pub fn to_bytes(&self) -> (r: Vec<u8>)
        ensures
            r@ == le_bytes_of(seq![self.pivot_row, self.pivot_col]),
            r@.len() == 8,
    {
        let words: [u32; 2] = [self.pivot_row, self.pivot_col];
        assert(words@ =~= seq![self.pivot_row, self.pivot_col]);
        le_bytes(words.as_slice())
    }
}

/// What the host must do next.
#[derive(Clone, Copy, Debug, PartialEq, Eq, Structural)]
pub enum Action {
    /// Dispatch the elimination kernel for one pivot and submit it.
    Eliminate(PushConstants),
    /// Dispatch the back-substitution kernel and submit it.
    BackSubstitute,
    /// Copy the solution buffer into the host-visible staging buffer.
    CopyToStaging,
    /// Request a read mapping of the staging buffer and wait for it.
    MapStaging,
    /// The staging buffer is mapped: decode its bytes, then unmap it.
    ReadMapped,
    /// A fault ended the computation: report the driver's error.
    Halt,
}

/// A failure reported by the compute backend for the last action.
#[derive(Clone, Copy, Debug, PartialEq, Eq, Structural)]
pub enum Fault {
    /// The device was lost.
    DeviceLost,
    /// The backend refused or failed the request.
    MapFailed,
    /// The backend did not answer in time.
    TimedOut,
    /// The completion signal was dropped before it fired.
    Disconnected,
}

/// Why no solution is returned.
#[derive(Clone, Copy, Debug, PartialEq, Eq, Structural)]
pub enum SolveError {
    /// A fault struck before the solution reached the staging buffer; this
    /// many steps had completed.
    ComputationIncomplete { completed_steps: u32 },
    /// Mapping the staging buffer failed or the device was lost meanwhile.
    MapFailed,
    /// Mapping the staging buffer timed out.
    MapTimedOut,
    /// The backend dropped the completion signal.
    BackendDisconnected,
    /// The mapped range does not hold exactly one word per unknown.
    MalformedReadBack,
    /// Some unknown came back as an infinity or a NaN, as a zero pivot met
    /// during elimination produces.
    NonFiniteResult,
}

/// Step `step` of the schedule for `n` unknowns: one elimination per pivot
/// `0..n` in order, then back-substitution, the copy, the mapping and the read.
pub open spec fn planned_action(n: nat, step: nat) -> Action {
    if step < n {
        Action::Eliminate(PushConstants { pivot_row: step as u32, pivot_col: step as u32 })
    } else if step == n {
        Action::BackSubstitute
    } else if step == n + 1 {
        Action::CopyToStaging
    } else if step == n + 2 {
        Action::MapStaging
    } else {
        Action::ReadMapped
    }
}

/// In the schedule for `n` unknowns, pivot `k` is eliminated at step `k` and at
/// no other step, and back-substitution follows the last pivot. Pivot `k + 1`
/// is therefore only dispatched once pivot `k` has completed.
pub proof fn lemma_pivot_schedule(n: nat, k: nat, s: nat)
    requires
        n <= MAX_DIMENSION,
        k < n,
    ensures
        planned_action(n, s) == Action::Eliminate(
            PushConstants { pivot_row: k as u32, pivot_col: k as u32 },
        ) <==> s == k,
        planned_action(n, n) == Action::BackSubstitute,
        planned_action(n, n + 1) == Action::CopyToStaging,
        planned_action(n, n + 2) == Action::MapStaging,
{
}

/// The error reported for fault `f` at step `step` of an `n`-unknown run.
pub open spec fn fault_error(n: nat, step: nat, f: Fault) -> SolveError {
    if f == Fault::Disconnected {
        SolveError::BackendDisconnected
    } else if step < n + 2 {
        SolveError::ComputationIncomplete { completed_steps: step as u32 }
    } else if f == Fault::TimedOut {
        SolveError::MapTimedOut
    } else {
        SolveError::MapFailed
    }
}

/// Orders the dispatches of one solve. Step `k` waits for the outcome of step
/// `k - 1`: elimination for pivot `k + 1` reads what pivot `k` wrote.
pub struct SolveDriver {
    n: u32,
    workgroup_size: u32,
    step: u32,
    error: Option<SolveError>,
}

impl SolveDriver {
    pub closed spec fn unknowns(&self) -> nat {
        self.n as nat
    }

    pub closed spec fn group_size(&self) -> nat {
        self.workgroup_size as nat
    }

    /// Number of steps completed so far.
    pub closed spec fn completed(&self) -> nat {
        self.step as nat
    }

    /// The error that stopped the run, if any.
    pub closed spec fn failure(&self) -> Option<SolveError> {
        self.error
    }

    pub closed spec fn wf(&self) -> bool {
        1 <= self.n <= MAX_DIMENSION && self.workgroup_size >= 1 && self.step <= self.n + 3
    }

    /// The action the host performs next.
    pub open spec fn spec_next(&self) -> Action {
        if self.failure() is Some {
            Action::Halt
        } else {
            planned_action(self.unknowns(), self.completed())
        }
    }

    /// A driver for solving `matrix`, dispatching `workgroup_size` threads per
    /// workgroup, before any step.
    pub fn new(matrix: &AugmentedMatrix, workgroup_size: u32) -> (r: SolveDriver)
        requires
            matrix.wf(),
            workgroup_size >= 1,
        ensures
            r.wf(),
            r.unknowns() == matrix.n(),
            r.group_size() == workgroup_size,
            r.completed() == 0,
            r.failure() is None,
    {
        let n = matrix.dimension();
        SolveDriver { n: n as u32, workgroup_size, step: 0, error: None }
    }

    /// Workgroups per dispatch: the fewest that give each row a thread.
    pub fn workgroup_count(&self) -> (r: u32)
        requires
            self.wf(),
        ensures
            r * self.group_size() >= self.unknowns(),
            (r - 1) * self.group_size() < self.unknowns(),
    {
        let n = self.n;
        let g = self.workgroup_size;
        let q = n / g;
        let m = n % g;
        assert(n == q * g + m && m < g) by (nonlinear_arith)
            requires
                g >= 1,
                q == n / g,
                m == n % g,
        ;
        if m == 0 {
            assert(q * g >= n && (q - 1) * g < n) by (nonlinear_arith)
                requires
                    n == q * g,
                    g >= 1,
                    n >= 1,
            ;
            q
        } else {
            assert(q < n) by (nonlinear_arith)
                requires
                    n == q * g + m,
                    m >= 1,
                    g >= 1,
            ;
            assert((q + 1) * g >= n && q * g < n) by (nonlinear_arith)
                requires
                    n == q * g + m,
                    m < g,
                    m >= 1,
            ;
            q + 1
        }
    }

    /// Size in bytes of the staging buffer: one 4-byte word per unknown.
    pub fn staging_size(&self) -> (r: u64)
        requires
            self.wf(),
        ensures
            r == 4 * self.unknowns(),
    {
        4 * (self.n as u64)
    }

    /// The action the host performs next.
    pub fn next_action(&self) -> (r: Action)
        requires
            self.wf(),
        ensures
            r == self.spec_next(),
    {
        if self.error.is_some() {
            Action::Halt
        } else if self.step < self.n {
            Action::Eliminate(PushConstants { pivot_row: self.step, pivot_col: self.step })
        } else if self.step == self.n {
            Action::BackSubstitute
        } else if self.step == self.n + 1 {
            Action::CopyToStaging
        } else if self.step == self.n + 2 {
            Action::MapStaging
        } else {
            Action::ReadMapped
        }
    }

    /// Records the outcome of the action last returned by `next_action`.
    /// Success moves to the next step; a fault stops the run with the error
    /// that `fault_error` gives, and no later step is issued.
    pub fn advance(&mut self, outcome: Result<(), Fault>)
        requires
            old(self).wf(),
            old(self).failure() is None,
            old(self).completed() <= old(self).unknowns() + 2,
        ensures
            final(self).wf(),
            final(self).unknowns() == old(self).unknowns(),
            final(self).group_size() == old(self).group_size(),
            match outcome {
                Ok(()) => final(self).completed() == old(self).completed() + 1
                    && final(self).failure() is None,
                Err(f) => final(self).completed() == old(self).completed()
                    && final(self).failure() == Some(
                    fault_error(old(self).unknowns(), old(self).completed(), f),
                ),
            },
    {
        match outcome {
            Ok(()) => {
                self.step = self.step + 1;
            },
            Err(f) => {
                let e = if f == Fault::Disconnected {
                    SolveError::BackendDisconnected
                } else if self.step < self.n + 2 {
                    SolveError::ComputationIncomplete { completed_steps: self.step }
                } else if f == Fault::TimedOut {
                    SolveError::MapTimedOut
                } else {
                    SolveError::MapFailed
                };
                self.error = Some(e);
            },
        }
    }

    /// Decodes the mapped staging range once the run has reached the read.
    pub fn read_solution(&self, bytes: &[u8]) -> (r: Result<Vec<u32>, SolveError>)
        requires
            self.wf(),
            self.spec_next() == Action::ReadMapped,
        ensures
            match r {
                Ok(v) => solution_outcome(self.unknowns(), bytes@) == Ok::<Seq<u32>, SolveError>(
                    v@,
                ),
                Err(e) => solution_outcome(self.unknowns(), bytes@) == Err::<
                    Seq<u32>,
                    SolveError,
                >(e),
            },
    {
        decode_solution(self.n as usize, bytes)
    }

    /// The error that stopped the run, if any.
    pub fn error(&self) -> (r: Option<SolveError>)
        ensures
            r == self.failure(),
    {
        self.error
    }
}

} // verus!
