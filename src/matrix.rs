use vstd::prelude::*;
use vstd::arithmetic::div_mod::lemma_fundamental_div_mod_converse;

use crate::bits::{is_finite_bits, is_zero_bits, spec_is_finite, spec_is_zero};
use crate::bytes::le_bytes;
use crate::readback::le_bytes_of;

verus! {

/// Largest number of unknowns accepted: the matrix then fills at most
/// 4 * 16384 * 16385 bytes, which every address width holds.
pub const MAX_DIMENSION: usize = 0x4000;

/// An `n × (n+1)` augmented matrix `[A | b]`; each entry is the bit pattern of
/// an IEEE-754 single-precision value. Column `n` holds `b`.
pub struct AugmentedMatrix {
    rows: Vec<Vec<u32>>,
}

/// Why a matrix was refused.
#[derive(Clone, Copy, Debug, PartialEq, Eq, Structural)]
pub enum MatrixError {
    /// No rows at all.
    Empty,
    /// More rows than `MAX_DIMENSION`.
    TooLarge,
    /// Some row does not hold exactly one more entry than there are rows.
    RaggedRows,
    /// Some entry is an infinity or a NaN.
    NonFiniteEntry,
    /// The first pivot `A[0][0]` is zero, and no row exchange is performed.
    ZeroPivot,
}

/// Every row of `rows` has `rows.len() + 1` entries.
pub open spec fn is_augmented(rows: Seq<Seq<u32>>) -> bool {
    forall|i: int| 0 <= i < rows.len() ==> #[trigger] rows[i].len() == rows.len() + 1
}

/// All entries of `rows` encode finite values.
pub open spec fn all_finite(rows: Seq<Seq<u32>>) -> bool {
    forall|i: int, j: int|
        0 <= i < rows.len() && 0 <= j < rows[i].len() ==> spec_is_finite(#[trigger] rows[i][j])
}

/// The entries of `rows`, each `width` wide, one row after the other.
pub open spec fn row_major(rows: Seq<Seq<u32>>, width: nat) -> Seq<u32> {
    Seq::new(rows.len() * width, |k: int| rows[k / width as int][k % width as int])
}

/// What validation of a well-shaped matrix reports.
pub open spec fn validation(rows: Seq<Seq<u32>>) -> Result<(), MatrixError> {
    if !all_finite(rows) {
        Err(MatrixError::NonFiniteEntry)
    } else if spec_is_zero(rows[0][0]) {
        Err(MatrixError::ZeroPivot)
    } else {
        Ok(())
    }
}

impl View for AugmentedMatrix {
    type V = Seq<Seq<u32>>;

    closed spec fn view(&self) -> Seq<Seq<u32>> {
        self.rows@.map_values(|r: Vec<u32>| r@)
    }
}

impl AugmentedMatrix {
    /// Shape invariant: between 1 and `MAX_DIMENSION` rows, each one entry
    /// longer than the number of rows.
    pub open spec fn wf(&self) -> bool {
        1 <= self@.len() <= MAX_DIMENSION && is_augmented(self@)
    }

    /// Number of unknowns.
    pub open spec fn n(&self) -> nat {
        self@.len()
    }

    /// Builds a matrix from its rows. Fails with `Empty` on no rows, `TooLarge`
    /// on more than `MAX_DIMENSION` rows, and `RaggedRows` where a row's length
    /// is not the number of rows plus one.
    pub fn from_rows(rows: Vec<Vec<u32>>) -> (r: Result<AugmentedMatrix, MatrixError>)
        ensures
            rows@.len() == 0 ==> r == Err::<AugmentedMatrix, MatrixError>(MatrixError::Empty),
            rows@.len() > MAX_DIMENSION ==> r == Err::<AugmentedMatrix, MatrixError>(
                MatrixError::TooLarge,
            ),
            1 <= rows@.len() <= MAX_DIMENSION ==> match r {
                Ok(m) => is_augmented(rows@.map_values(|v: Vec<u32>| v@)) && m.wf() && m@
                    == rows@.map_values(|v: Vec<u32>| v@),
                Err(e) => !is_augmented(rows@.map_values(|v: Vec<u32>| v@)) && e
                    == MatrixError::RaggedRows,
            },
    {
        let n = rows.len();
        if n == 0 {
            return Err(MatrixError::Empty);
        }
        if n > MAX_DIMENSION {
            return Err(MatrixError::TooLarge);
        }
        let ghost view = rows@.map_values(|v: Vec<u32>| v@);
        let mut i: usize = 0;
        while i < n
            invariant
                n == rows@.len(),
                n <= MAX_DIMENSION,
                view == rows@.map_values(|v: Vec<u32>| v@),
                i <= n,
                forall|k: int| 0 <= k < i ==> #[trigger] view[k].len() == n + 1,
            decreases n - i,
        {
            if rows[i].len() != n + 1 {
                assert(view[i as int].len() != view.len() + 1);
                return Err(MatrixError::RaggedRows);
            }
            i += 1;
        }
        let m = AugmentedMatrix { rows };
        assert(m@ == view);
        Ok(m)
    }

    /// Number of unknowns.
    pub fn dimension(&self) -> (r: usize)
        requires
            self.wf(),
        ensures
            r == self.n(),
    {
        self.rows.len()
    }

    /// Entry at row `i`, column `j` (column `n` is the right-hand side).
    pub fn entry(&self, i: usize, j: usize) -> (r: u32)
        requires
            self.wf(),
            i < self.n(),
            j <= self.n(),
        ensures
            r == self@[i as int][j as int],
    {
        assert(self@[i as int].len() == self.n() + 1);
        self.rows[i][j]
    }

    /// Checks that elimination can start: every entry finite (`NonFiniteEntry`
    /// otherwise), then a non-zero first pivot (`ZeroPivot` otherwise).
    pub fn validate(&self) -> (r: Result<(), MatrixError>)
        requires
            self.wf(),
        ensures
            r == validation(self@),
    {
        let n = self.rows.len();
        let mut i: usize = 0;
        while i < n
            invariant
                self.wf(),
                n == self@.len(),
                i <= n,
                forall|a: int, b: int|
                    0 <= a < i && 0 <= b < self@[a].len() ==> spec_is_finite(
                        #[trigger] self@[a][b],
                    ),
            decreases n - i,
        {
            let mut j: usize = 0;
            while j < n + 1
                invariant
                    self.wf(),
                    n == self@.len(),
                    i < n,
                    j <= n + 1,
                    forall|a: int, b: int|
                        0 <= a < i && 0 <= b < self@[a].len() ==> spec_is_finite(
                            #[trigger] self@[a][b],
                        ),
                    forall|b: int| 0 <= b < j ==> spec_is_finite(#[trigger] self@[i as int][b]),
                decreases n + 1 - j,
            {
                assert(self@[i as int].len() == n + 1);
                if !is_finite_bits(self.rows[i][j]) {
                    return Err(MatrixError::NonFiniteEntry);
                }
                j += 1;
            }
            assert(self@[i as int].len() == n + 1);
            i += 1;
        }
        assert(self@[0].len() == n + 1);
        if is_zero_bits(self.rows[0][0]) {
            return Err(MatrixError::ZeroPivot);
        }
        Ok(())
    }

    /// All entries in row-major order, the layout the device buffer uses.
    pub fn row_major_words(&self) -> (r: Vec<u32>)
        requires
            self.wf(),
        ensures
            r@ == row_major(self@, self.n() + 1),
    {
        let n = self.rows.len();
        let w = n + 1;
        let mut out: Vec<u32> = Vec::new();
        let mut i: usize = 0;
        while i < n
            invariant
                self.wf(),
                n == self@.len(),
                w == n + 1,
                i <= n,
                out@.len() == i * w,
                forall|k: int| 0 <= k < i * w ==> #[trigger] out@[k] == self@[k / w as int][k % w as int],
            decreases n - i,
        {
            assert(self@[i as int].len() == w);
            assert(i * w + w <= n * w) by (nonlinear_arith)
                requires
                    i < n,
            ;
            assert(n * w <= MAX_DIMENSION * (MAX_DIMENSION + 1)) by (nonlinear_arith)
                requires
                    n <= MAX_DIMENSION,
                    w == n + 1,
            ;
            let ghost before = out@;
            out.extend_from_slice(self.rows[i].as_slice());
            assert((i + 1) * w == i * w + w) by (nonlinear_arith);
            assert forall|k: int| 0 <= k < (i + 1) * w implies #[trigger] out@[k]
                == self@[k / w as int][k % w as int] by {
                if k < i * w {
                    assert(out@[k] == before[k]);
                } else {
                    lemma_fundamental_div_mod_converse(k, w as int, i as int, k - i * w);
                }
            }
            i += 1;
        }
        assert(out@ =~= row_major(self@, (n + 1) as nat));
        out
    }

    /// The bytes that fill the device's matrix buffer: the row-major entries,
    /// `b` in the last column, each as four little-endian bytes, no padding.
    pub fn upload_bytes(&self) -> (r: Vec<u8>)
        requires
            self.wf(),
        ensures
            r@ == le_bytes_of(row_major(self@, self.n() + 1)),
            r@.len() == 4 * (self.n() * (self.n() + 1)),
    {
        let words = self.row_major_words();
        le_bytes(words.as_slice())
    }

    /// The bytes that fill the device's solution buffer before elimination:
    /// `n` zero words.
    pub fn solution_seed_bytes(&self) -> (r: Vec<u8>)
        requires
            self.wf(),
        ensures
            r@.len() == 4 * self.n(),
            forall|k: int| 0 <= k < r@.len() ==> r@[k] == 0,
    {
        let zeros: Vec<u32> = vec![0u32; self.rows.len()];
        let r = le_bytes(zeros.as_slice());
        assert forall|k: int| 0 <= k < r@.len() implies r@[k] == 0 by {
            assert(zeros@[k / 4] == 0);
        }
        r
    }
}

} // verus!
