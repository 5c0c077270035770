//! Matrix multiplication: the general primitive, the kernel set built on it,
//! and the traced forward operations.
//!
//! Every kernel is one parameterization of a single general matrix-multiply
//! primitive, [`gemm`]: operand and result matrices may each be read or
//! written through a transposed index map, so a "transposed" kernel needs no
//! data copy, and the primitive either accumulates into the output or
//! overwrites it. All kernels accumulate, matching how backward passes sum
//! gradient contributions into zero-initialized buffers.

use vstd::arithmetic::div_mod::{
    lemma_fundamental_div_mod, lemma_fundamental_div_mod_converse_div,
    lemma_fundamental_div_mod_converse_mod,
};
use vstd::prelude::*;

use crate::scalar::{alloc_zeros, copy_buf, zero_seq, Scalar};
use crate::tape::{BackwardOp, OpV};
use crate::tensor::{TapeState, Tensor};
use crate::unique_id::IdSource;

verus! {

/// Element `(i, j)` of a logical `rows × cols` matrix held in `s`: row-major
/// when `t` is false, through the transposed index map (storage is
/// `cols × rows` row-major) when `t` is true.
pub open spec fn mat_at<E: Scalar>(s: Seq<E>, t: bool, rows: int, cols: int, i: int, j: int) -> E {
    if t {
        s[j * rows + i]
    } else {
        s[i * cols + j]
    }
}

/// The first `k` terms of the dot product of row `i` of `a` (logical
/// `m × n`) and column `j` of `b` (logical `n × o`), contracted left to
/// right onto `base` by fused multiply-add steps.
pub open spec fn dot_acc<E: Scalar>(
    base: E,
    a: Seq<E>,
    ta: bool,
    b: Seq<E>,
    tb: bool,
    m: int,
    n: int,
    o: int,
    i: int,
    j: int,
    k: int,
) -> E
    decreases k,
{
    if k <= 0 {
        base
    } else {
        mat_at(a, ta, m, n, i, k - 1).mul_add_s(
            mat_at(b, tb, n, o, k - 1, j),
            dot_acc(base, a, ta, b, tb, m, n, o, i, j, k - 1),
        )
    }
}

/// The logical row a storage index of the output belongs to.
pub open spec fn out_row(t_out: bool, m: int, o: int, idx: int) -> int {
    if t_out {
        idx % m
    } else {
        idx / o
    }
}

/// The logical column a storage index of the output belongs to.
pub open spec fn out_col(t_out: bool, m: int, o: int, idx: int) -> int {
    if t_out {
        idx / m
    } else {
        idx % o
    }
}

/// The storage index of logical output cell `(i, j)`.
pub open spec fn opos(t_out: bool, m: int, o: int, i: int, j: int) -> int {
    if t_out {
        j * m + i
    } else {
        i * o + j
    }
}

/// What the general primitive leaves in the output buffer: every logical
/// cell `(i, j)` of the `m × o` result holds the full dot product of row `i`
/// of `a` and column `j` of `b`, summed onto the previous contents when
/// `accumulate` is set and onto zero otherwise.
pub open spec fn gemm_spec<E: Scalar>(
    init: Seq<E>,
    a: Seq<E>,
    ta: bool,
    b: Seq<E>,
    tb: bool,
    m: int,
    n: int,
    o: int,
    t_out: bool,
    accumulate: bool,
) -> Seq<E> {
    Seq::new(
        (m * o) as nat,
        |idx: int|
            dot_acc(
                if accumulate {
                    init[idx]
                } else {
                    E::zero_s()
                },
                a,
                ta,
                b,
                tb,
                m,
                n,
                o,
                out_row(t_out, m, o, idx),
                out_col(t_out, m, o, idx),
                n,
            ),
    )
}

/// Decoding a row-major position: `(i, j)` within an `r × c` grid is stored
/// at `i * c + j`, and that index maps back to `(i, j)` alone.
pub proof fn lemma_rowmajor(i: int, j: int, r: int, c: int)
    requires
        0 <= i < r,
        0 <= j < c,
    ensures
        0 <= i * c + j < r * c,
        (i * c + j) / c == i,
        (i * c + j) % c == j,
{
    assert(0 <= i * c + j < r * c) by (nonlinear_arith)
        requires
            0 <= i < r,
            0 <= j < c,
    ;
    lemma_fundamental_div_mod_converse_div(i * c + j, c, i, j);
    lemma_fundamental_div_mod_converse_mod(i * c + j, c, i, j);
}

/// Logical output cell `(i, j)` is stored inside the buffer, at an index
/// that decodes back to exactly that cell.
pub proof fn lemma_opos(t_out: bool, m: int, o: int, i: int, j: int)
    requires
        0 <= i < m,
        0 <= j < o,
    ensures
        0 <= opos(t_out, m, o, i, j) < m * o,
        out_row(t_out, m, o, opos(t_out, m, o, i, j)) == i,
        out_col(t_out, m, o, opos(t_out, m, o, i, j)) == j,
{
    if t_out {
        lemma_rowmajor(j, i, o, m);
        assert(o * m == m * o) by (nonlinear_arith);
    } else {
        lemma_rowmajor(i, j, m, o);
    }
}

/// Every storage index of the output buffer decodes to a logical cell in
/// range, whose storage index it is.
pub proof fn lemma_out_idx(t_out: bool, m: int, o: int, idx: int)
    requires
        m >= 0,
        o >= 0,
        0 <= idx < m * o,
    ensures
        0 <= out_row(t_out, m, o, idx) < m,
        0 <= out_col(t_out, m, o, idx) < o,
        opos(t_out, m, o, out_row(t_out, m, o, idx), out_col(t_out, m, o, idx)) == idx,
{
    assert(m > 0 && o > 0) by (nonlinear_arith)
        requires
            m >= 0,
            o >= 0,
            0 <= idx < m * o,
    ;
    if t_out {
        lemma_fundamental_div_mod(idx, m);
        assert(0 <= idx % m < m);
        let q = idx / m;
        assert(idx == m * q + idx % m);
        assert(0 <= q < o) by (nonlinear_arith)
            requires
                idx == m * q + idx % m,
                0 <= idx % m < m,
                0 <= idx < m * o,
        ;
        assert(opos(t_out, m, o, idx % m, q) == q * m + idx % m);
        assert(q * m == m * q) by (nonlinear_arith);
    } else {
        lemma_fundamental_div_mod(idx, o);
        assert(0 <= idx % o < o);
        let q = idx / o;
        assert(idx == o * q + idx % o);
        assert(0 <= q < m) by (nonlinear_arith)
            requires
                idx == o * q + idx % o,
                0 <= idx % o < o,
                0 <= idx < m * o,
        ;
        assert(q * o == o * q) by (nonlinear_arith);
    }
}

/// Which output cells a pass over the matrix has already filled when the
/// loops stand at row `i`, column `j`.
pub open spec fn cell_done(t_out: bool, m: int, o: int, idx: int, i: int, j: int) -> bool {
    out_row(t_out, m, o, idx) < i || (out_row(t_out, m, o, idx) == i && out_col(t_out, m, o, idx)
        < j)
}

/// The general matrix-multiply primitive: `out (+)= a · b` over logical
/// `m × n` times `n × o` operands, each side and the output independently
/// readable or writable through a transposed index map, accumulating into
/// `out` or overwriting it.
pub fn gemm<E: Scalar>(
    m: usize,
    n: usize,
    o: usize,
    a: &Vec<E>,
    ta: bool,
    b: &Vec<E>,
    tb: bool,
    out: &mut Vec<E>,
    t_out: bool,
    accumulate: bool,
)
    requires
        a@.len() == m * n,
        b@.len() == n * o,
        old(out)@.len() == m * o,
    ensures
        final(out)@ == gemm_spec(
            old(out)@,
            a@,
            ta,
            b@,
            tb,
            m as int,
            n as int,
            o as int,
            t_out,
            accumulate,
        ),
{
    let ghost target = gemm_spec(
        old(out)@,
        a@,
        ta,
        b@,
        tb,
        m as int,
        n as int,
        o as int,
        t_out,
        accumulate,
    );
    // The buffers exist, so each dimension product fits the machine.
    let _a_total: usize = a.len();
    let _b_total: usize = b.len();
    let _out_total: usize = out.len();
    assert(m * n <= usize::MAX && n * o <= usize::MAX && m * o <= usize::MAX);
    proof {
        assert forall|idx: int|
            0 <= idx < m * o implies !cell_done(t_out, m as int, o as int, idx, 0, 0) by {
            lemma_out_idx(t_out, m as int, o as int, idx);
        }
    }
    let mut i: usize = 0;
    while i < m
        invariant
            i <= m,
            a@.len() == m * n,
            b@.len() == n * o,
            out@.len() == m * o,
            m * n <= usize::MAX,
            n * o <= usize::MAX,
            m * o <= usize::MAX,
            target == gemm_spec(
                old(out)@,
                a@,
                ta,
                b@,
                tb,
                m as int,
                n as int,
                o as int,
                t_out,
                accumulate,
            ),
            forall|idx: int|
                0 <= idx < m * o ==> out@[idx] == if cell_done(t_out, m as int, o as int, idx,
                    i as int,
                    0,
                ) {
                    target[idx]
                } else {
                    old(out)@[idx]
                },
        decreases m - i,
    {
        let mut j: usize = 0;
        while j < o
            invariant
                i < m,
                j <= o,
                a@.len() == m * n,
                b@.len() == n * o,
                out@.len() == m * o,
                m * n <= usize::MAX,
                n * o <= usize::MAX,
                m * o <= usize::MAX,
                target == gemm_spec(
                    old(out)@,
                    a@,
                    ta,
                    b@,
                    tb,
                    m as int,
                    n as int,
                    o as int,
                    t_out,
                    accumulate,
                ),
                forall|idx: int|
                    0 <= idx < m * o ==> out@[idx] == if cell_done(t_out, m as int, o as int, idx,
                        i as int,
                        j as int,
                    ) {
                        target[idx]
                    } else {
                        old(out)@[idx]
                    },
            decreases o - j,
        {
            proof {
                lemma_opos(t_out, m as int, o as int, i as int, j as int);
            }
            let pos: usize = if t_out {
                j * m + i
            } else {
                i * o + j
            };
            assert(pos == opos(t_out, m as int, o as int, i as int, j as int));
            assert(!cell_done(t_out, m as int, o as int, pos as int, i as int, j as int));
            let ghost base = if accumulate {
                old(out)@[pos as int]
            } else {
                E::zero_s()
            };
            let mut acc: E = if accumulate {
                out[pos]
            } else {
                E::zero()
            };
            let mut k: usize = 0;
            while k < n
                invariant
                    i < m,
                    j < o,
                    k <= n,
                    a@.len() == m * n,
                    b@.len() == n * o,
                    m * n <= usize::MAX,
                    n * o <= usize::MAX,
                    acc == dot_acc(
                        base,
                        a@,
                        ta,
                        b@,
                        tb,
                        m as int,
                        n as int,
                        o as int,
                        i as int,
                        j as int,
                        k as int,
                    ),
                decreases n - k,
            {
                proof {
                    if ta {
                        lemma_rowmajor(k as int, i as int, n as int, m as int);
                        assert(n * m == m * n) by (nonlinear_arith);
                    } else {
                        lemma_rowmajor(i as int, k as int, m as int, n as int);
                    }
                    if tb {
                        lemma_rowmajor(j as int, k as int, o as int, n as int);
                        assert(o * n == n * o) by (nonlinear_arith);
                    } else {
                        lemma_rowmajor(k as int, j as int, n as int, o as int);
                    }
                }
                let apos: usize = if ta {
                    k * m + i
                } else {
                    i * n + k
                };
                let bpos: usize = if tb {
                    j * n + k
                } else {
                    k * o + j
                };
                acc = a[apos].mul_add(b[bpos], acc);
                k = k + 1;
            }
            out.set(pos, acc);
            proof {
                assert(out@[pos as int] == target[pos as int]);
                assert forall|idx: int|
                    0 <= idx < m * o implies out@[idx] == if cell_done(
                    t_out,
                    m as int,
                    o as int,
                    idx,
                    i as int,
                    j + 1,
                ) {
                    target[idx]
                } else {
                    old(out)@[idx]
                } by {
                    lemma_out_idx(t_out, m as int, o as int, idx);
                }
            }
            j = j + 1;
        }
        proof {
            assert forall|idx: int|
                0 <= idx < m * o implies out@[idx] == if cell_done(
                t_out,
                m as int,
                o as int,
                idx,
                i + 1,
                0,
            ) {
                target[idx]
            } else {
                old(out)@[idx]
            } by {
                lemma_out_idx(t_out, m as int, o as int, idx);
            }
        }
        i = i + 1;
    }
    proof {
        assert forall|idx: int| 0 <= idx < m * o implies out@[idx] == target[idx] by {
            lemma_out_idx(t_out, m as int, o as int, idx);
        }
        assert(out@ =~= target);
    }
}

/// Kernel `out += x · y` for `x: m × n`, `y: n × o`, all row-major.
pub fn matmat_mul_into<E: Scalar>(x: &Vec<E>, y: &Vec<E>, out: &mut Vec<E>, m: usize, n: usize, o: usize)
    requires
        x@.len() == m * n,
        y@.len() == n * o,
        old(out)@.len() == m * o,
    ensures
        final(out)@ == gemm_spec(old(out)@, x@, false, y@, false, m as int, n as int, o as int, false, true),
{
    gemm(m, n, o, x, false, y, false, out, false, true)
}

/// Kernel `out += xᵗ · y` for `x_t` holding the `m × n` left operand in
/// transposed (`n × m`) storage.
pub fn matmat_mul_into_xt<E: Scalar>(x_t: &Vec<E>, y: &Vec<E>, out: &mut Vec<E>, m: usize, n: usize, o: usize)
    requires
        x_t@.len() == m * n,
        y@.len() == n * o,
        old(out)@.len() == m * o,
    ensures
        final(out)@ == gemm_spec(old(out)@, x_t@, true, y@, false, m as int, n as int, o as int, false, true),
{
    gemm(m, n, o, x_t, true, y, false, out, false, true)
}

/// Kernel `out += x · yᵗ` for `y_t` holding the `n × o` right operand in
/// transposed (`o × n`) storage.
pub fn matmat_mul_into_yt<E: Scalar>(x: &Vec<E>, y_t: &Vec<E>, out: &mut Vec<E>, m: usize, n: usize, o: usize)
    requires
        x@.len() == m * n,
        y_t@.len() == n * o,
        old(out)@.len() == m * o,
    ensures
        final(out)@ == gemm_spec(old(out)@, x@, false, y_t@, true, m as int, n as int, o as int, false, true),
{
    gemm(m, n, o, x, false, y_t, true, out, false, true)
}

/// Kernel `outᵗ += xᵗ · y`: both the left operand and the `m × o` result are
/// held in transposed storage.
pub fn matmat_mul_into_xtzt<E: Scalar>(x_t: &Vec<E>, y: &Vec<E>, out_t: &mut Vec<E>, m: usize, n: usize, o: usize)
    requires
        x_t@.len() == m * n,
        y@.len() == n * o,
        old(out_t)@.len() == m * o,
    ensures
        final(out_t)@ == gemm_spec(old(out_t)@, x_t@, true, y@, false, m as int, n as int, o as int, true, true),
{
    gemm(m, n, o, x_t, true, y, false, out_t, true, true)
}

/// Kernel `out += x · y` for a row vector `x` of length `n` and `y: n × o`.
pub fn vecmat_mul_into<E: Scalar>(x: &Vec<E>, y: &Vec<E>, out: &mut Vec<E>, n: usize, o: usize)
    requires
        x@.len() == n,
        y@.len() == n * o,
        old(out)@.len() == o,
    ensures
        final(out)@ == gemm_spec(old(out)@, x@, false, y@, false, 1, n as int, o as int, false, true),
{
    gemm(1, n, o, x, false, y, false, out, false, true)
}

/// Kernel `out += x · yᵗ` for a row vector `x` of length `n` and `y_t`
/// holding the `n × o` right operand in transposed (`o × n`) storage.
pub fn vecmat_mul_into_yt<E: Scalar>(x: &Vec<E>, y_t: &Vec<E>, out: &mut Vec<E>, n: usize, o: usize)
    requires
        x@.len() == n,
        y_t@.len() == n * o,
        old(out)@.len() == o,
    ensures
        final(out)@ == gemm_spec(old(out)@, x@, false, y_t@, true, 1, n as int, o as int, false, true),
{
    gemm(1, n, o, x, false, y_t, true, out, false, true)
}

/// The forward value of a plain matrix product: `a (m × n) · b (n × o)`.
pub open spec fn matmul_fwd<E: Scalar>(a: Seq<E>, b: Seq<E>, m: int, n: int, o: int) -> Seq<E> {
    gemm_spec(zero_seq::<E>((m * o) as nat), a, false, b, false, m, n, o, false, true)
}

/// The forward value of a matrix product whose right operand is held
/// transposed: `a (m × n) · b_tᵗ` with `b_t: o × n`.
pub open spec fn matmul_t_fwd<E: Scalar>(a: Seq<E>, b_t: Seq<E>, m: int, n: int, o: int) -> Seq<E> {
    gemm_spec(zero_seq::<E>((m * o) as nat), a, false, b_t, true, m, n, o, false, true)
}

/// Kernel `out += x ⊗ y`, the outer product of a column vector of length `m`
/// and a row vector of length `o`.
pub fn vecvec_mul_into<E: Scalar>(x: &Vec<E>, y: &Vec<E>, out: &mut Vec<E>, m: usize, o: usize)
    requires
        x@.len() == m,
        y@.len() == o,
        old(out)@.len() == m * o,
    ensures
        final(out)@ == gemm_spec(old(out)@, x@, false, y@, false, m as int, 1, o as int, false, true),
{
    gemm(m, 1, o, x, false, y, false, out, false, true)
}

/// The transpose of an `rows × cols` row-major matrix: the same elements in
/// `cols × rows` row-major storage.
pub open spec fn transpose_seq<E: Scalar>(s: Seq<E>, rows: int, cols: int) -> Seq<E> {
    Seq::new((rows * cols) as nat, |idx: int| s[(idx % rows) * cols + idx / rows])
}

/// Where a transposed matrix keeps each element of the original.
pub proof fn lemma_transpose_entry<E: Scalar>(s: Seq<E>, rows: int, cols: int, i: int, j: int)
    requires
        s.len() == rows * cols,
        0 <= i < rows,
        0 <= j < cols,
    ensures
        0 <= j * rows + i < rows * cols,
        transpose_seq(s, rows, cols)[j * rows + i] == s[i * cols + j],
{
    lemma_rowmajor(j, i, cols, rows);
    assert(cols * rows == rows * cols) by (nonlinear_arith);
    lemma_rowmajor(i, j, rows, cols);
}

/// Two operand pairs whose products agree term by term give the same
/// accumulated dot product.
proof fn lemma_dot_acc_same_products<E: Scalar>(
    base: E,
    a1: Seq<E>,
    ta1: bool,
    b1: Seq<E>,
    tb1: bool,
    a2: Seq<E>,
    ta2: bool,
    b2: Seq<E>,
    tb2: bool,
    m: int,
    n: int,
    o: int,
    i: int,
    j: int,
    k: int,
)
    requires
        forall|kk: int| 0 <= kk < k ==> mat_at(a1, ta1, m, n, i, kk) == mat_at(a2, ta2, m, n, i, kk),
        forall|kk: int| 0 <= kk < k ==> mat_at(b1, tb1, n, o, kk, j) == mat_at(b2, tb2, n, o, kk, j),
    ensures
        dot_acc(base, a1, ta1, b1, tb1, m, n, o, i, j, k) == dot_acc(
            base,
            a2,
            ta2,
            b2,
            tb2,
            m,
            n,
            o,
            i,
            j,
            k,
        ),
    decreases k,
{
    if k > 0 {
        lemma_dot_acc_same_products(base, a1, ta1, b1, tb1, a2, ta2, b2, tb2, m, n, o, i, j, k - 1);
    }
}

/// Reading a right operand through the transposed index map is the same as
/// reading its materialized transpose plainly.
pub proof fn lemma_gemm_swap_tb<E: Scalar>(
    init: Seq<E>,
    a: Seq<E>,
    ta: bool,
    b: Seq<E>,
    m: int,
    n: int,
    o: int,
    t_out: bool,
    accumulate: bool,
)
    requires
        b.len() == n * o,
        m >= 0,
        n >= 0,
        o >= 0,
    ensures
        gemm_spec(init, a, ta, b, false, m, n, o, t_out, accumulate) == gemm_spec(
            init,
            a,
            ta,
            transpose_seq(b, n, o),
            true,
            m,
            n,
            o,
            t_out,
            accumulate,
        ),
{
    let bt = transpose_seq(b, n, o);
    let lhs_seq = gemm_spec(init, a, ta, b, false, m, n, o, t_out, accumulate);
    let rhs_seq = gemm_spec(init, a, ta, bt, true, m, n, o, t_out, accumulate);
    assert forall|idx: int| 0 <= idx < m * o implies lhs_seq[idx] == rhs_seq[idx] by {
        lemma_out_idx(t_out, m, o, idx);
        let i = out_row(t_out, m, o, idx);
        let j = out_col(t_out, m, o, idx);
        assert forall|kk: int|
            0 <= kk < n implies mat_at(b, false, n, o, kk, j) == mat_at(bt, true, n, o, kk, j) by {
            lemma_transpose_entry(b, n, o, kk, j);
        }
        lemma_dot_acc_same_products(
            if accumulate {
                init[idx]
            } else {
                E::zero_s()
            },
            a,
            ta,
            b,
            false,
            a,
            ta,
            bt,
            true,
            m,
            n,
            o,
            i,
            j,
            n,
        );
    }
    assert(lhs_seq =~= rhs_seq);
}

/// Reading a right operand plainly from transposed storage is the same as
/// reading the original through the transposed index map: the other
/// direction of the stride/copy exchange, for a logical `o × n` operand.
pub proof fn lemma_gemm_swap_tb_rev<E: Scalar>(
    init: Seq<E>,
    a: Seq<E>,
    ta: bool,
    b: Seq<E>,
    m: int,
    n: int,
    o: int,
    t_out: bool,
    accumulate: bool,
)
    requires
        b.len() == n * o,
        m >= 0,
        n >= 0,
        o >= 0,
    ensures
        gemm_spec(init, a, ta, b, true, m, o, n, t_out, accumulate) == gemm_spec(
            init,
            a,
            ta,
            transpose_seq(b, n, o),
            false,
            m,
            o,
            n,
            t_out,
            accumulate,
        ),
{
    let bt = transpose_seq(b, n, o);
    let lhs_seq = gemm_spec(init, a, ta, b, true, m, o, n, t_out, accumulate);
    let rhs_seq = gemm_spec(init, a, ta, bt, false, m, o, n, t_out, accumulate);
    assert forall|idx: int| 0 <= idx < m * n implies lhs_seq[idx] == rhs_seq[idx] by {
        lemma_out_idx(t_out, m, n, idx);
        let i = out_row(t_out, m, n, idx);
        let j = out_col(t_out, m, n, idx);
        assert forall|kk: int|
            0 <= kk < o implies mat_at(b, true, o, n, kk, j) == mat_at(bt, false, o, n, kk, j) by {
            lemma_transpose_entry(b, n, o, j, kk);
            lemma_rowmajor(kk, j, o, n);
        }
        lemma_dot_acc_same_products(
            if accumulate {
                init[idx]
            } else {
                E::zero_s()
            },
            a,
            ta,
            b,
            true,
            a,
            ta,
            bt,
            false,
            m,
            o,
            n,
            i,
            j,
            o,
        );
    }
    assert(lhs_seq =~= rhs_seq);
}

/// Writing a result through the transposed index map leaves exactly the
/// transpose of what the plain write would leave, provided the accumulation
/// buffer is transposed the same way.
pub proof fn lemma_gemm_transpose_out<E: Scalar>(
    init: Seq<E>,
    a: Seq<E>,
    ta: bool,
    b: Seq<E>,
    tb: bool,
    m: int,
    n: int,
    o: int,
    accumulate: bool,
)
    requires
        init.len() == m * o,
        m >= 0,
        n >= 0,
        o >= 0,
    ensures
        gemm_spec(transpose_seq(init, m, o), a, ta, b, tb, m, n, o, true, accumulate)
            == transpose_seq(gemm_spec(init, a, ta, b, tb, m, n, o, false, accumulate), m, o),
{
    let lhs_seq = gemm_spec(transpose_seq(init, m, o), a, ta, b, tb, m, n, o, true, accumulate);
    let rhs_seq = transpose_seq(gemm_spec(init, a, ta, b, tb, m, n, o, false, accumulate), m, o);
    assert forall|idx: int| 0 <= idx < m * o implies lhs_seq[idx] == rhs_seq[idx] by {
        lemma_out_idx(true, m, o, idx);
        let i = idx % m;
        let j = idx / m;
        lemma_rowmajor(i, j, m, o);
    }
    assert(lhs_seq =~= rhs_seq);
}

/// Law (matmul/transpose duality, forward): multiplying by a matrix held
/// transposed gives elementwise the same result as multiplying by the
/// untransposed matrix itself.
pub proof fn lemma_matmul_transpose_forward_duality<E: Scalar>(
    a: Seq<E>,
    b: Seq<E>,
    m: int,
    n: int,
    o: int,
)
    requires
        b.len() == n * o,
        m >= 0,
        n >= 0,
        o >= 0,
    ensures
        matmul_t_fwd(a, transpose_seq(b, n, o), m, n, o) == matmul_fwd(a, b, m, n, o),
{
    lemma_gemm_swap_tb(zero_seq::<E>((m * o) as nat), a, false, b, m, n, o, false, true);
}

/// Matrix multiplication of a traced `m × n` tensor by an untracked `n × o`
/// tensor. The result carries the left operand's tape, extended — when that
/// operand is traced — with the backward operation that will accumulate
/// `d_lhs += d_out · rhsᵗ` and `d_rhs += lhsᵗ · d_out`.
pub fn matmul<E: Scalar>(lhs: Tensor<E>, rhs: &Tensor<E>, ids: &mut IdSource) -> (r: Tensor<E>)
    requires
        lhs.wf(),
        rhs.wf(),
        !rhs.is_traced(),
        lhs.cols == rhs.rows,
        lhs.rows * rhs.cols <= usize::MAX,
        lhs.id < old(ids).next_id(),
        rhs.id < old(ids).next_id(),
        old(ids).next_id() < u64::MAX,
    ensures
        r.id == old(ids).next_id(),
        final(ids).next_id() == old(ids).next_id() + 1,
        r.rows == lhs.rows,
        r.cols == rhs.cols,
        r.data@ == matmul_fwd(lhs.data@, rhs.data@, lhs.rows as int, lhs.cols as int, rhs.cols as int),
        r.is_traced() == lhs.is_traced(),
        r.tape_grads() == lhs.tape_grads(),
        lhs.is_traced() ==> r.tape_ops() == lhs.tape_ops().push(
            OpV::Matmul {
                m: lhs.rows,
                n: lhs.cols,
                o: rhs.cols,
                lhs_id: lhs.id,
                rhs_id: rhs.id,
                out_id: old(ids).next_id(),
                lhs: lhs.data@,
                rhs: rhs.data@,
            },
        ),
        !lhs.is_traced() ==> r.tape_ops() == Seq::<OpV<E>>::empty(),
        r.wf(),
{
    let m = lhs.rows;
    let n = lhs.cols;
    let o = rhs.cols;
    let mut out_data = alloc_zeros::<E>(m * o);
    matmat_mul_into(&lhs.data, &rhs.data, &mut out_data, m, n, o);
    let out_id = ids.fresh();
    let rhs_snapshot = copy_buf(&rhs.data);
    let rhs_id = rhs.id;
    let was_traced = lhs.traced();
    let (lhs_val, mut tape) = lhs.split_tape();
    if was_traced {
        let op = BackwardOp::Matmul {
            m,
            n,
            o,
            lhs_id: lhs_val.id,
            rhs_id,
            out_id,
            lhs: lhs_val.data,
            rhs: rhs_snapshot,
        };
        tape.add_backward_op(op);
        Tensor { id: out_id, rows: m, cols: o, data: out_data, tape: TapeState::Traced(tape) }
    } else {
        Tensor { id: out_id, rows: m, cols: o, data: out_data, tape: TapeState::Untracked }
    }
}

/// Matrix multiplication with the transpose of the right operand:
/// `lhs · rhs_tᵗ` for a traced `m × n` tensor and an untracked `o × n`
/// tensor, equal elementwise to `matmul` against the untransposed operand.
pub fn matmul_transpose<E: Scalar>(lhs: Tensor<E>, rhs_t: &Tensor<E>, ids: &mut IdSource) -> (r:
    Tensor<E>)
    requires
        lhs.wf(),
        rhs_t.wf(),
        !rhs_t.is_traced(),
        lhs.cols == rhs_t.cols,
        lhs.rows * rhs_t.rows <= usize::MAX,
        lhs.id < old(ids).next_id(),
        rhs_t.id < old(ids).next_id(),
        old(ids).next_id() < u64::MAX,
    ensures
        r.id == old(ids).next_id(),
        final(ids).next_id() == old(ids).next_id() + 1,
        r.rows == lhs.rows,
        r.cols == rhs_t.rows,
        r.data@ == matmul_t_fwd(
            lhs.data@,
            rhs_t.data@,
            lhs.rows as int,
            lhs.cols as int,
            rhs_t.rows as int,
        ),
        r.is_traced() == lhs.is_traced(),
        r.tape_grads() == lhs.tape_grads(),
        lhs.is_traced() ==> r.tape_ops() == lhs.tape_ops().push(
            OpV::MatmulT {
                m: lhs.rows,
                n: lhs.cols,
                o: rhs_t.rows,
                lhs_id: lhs.id,
                rhs_id: rhs_t.id,
                out_id: old(ids).next_id(),
                lhs: lhs.data@,
                rhs_t: rhs_t.data@,
            },
        ),
        !lhs.is_traced() ==> r.tape_ops() == Seq::<OpV<E>>::empty(),
        r.wf(),
{
    let m = lhs.rows;
    let n = lhs.cols;
    let o = rhs_t.rows;
    proof {
        assert(o * n == n * o) by (nonlinear_arith);
    }
    let mut out_data = alloc_zeros::<E>(m * o);
    matmat_mul_into_yt(&lhs.data, &rhs_t.data, &mut out_data, m, n, o);
    let out_id = ids.fresh();
    let rhs_snapshot = copy_buf(&rhs_t.data);
    let rhs_id = rhs_t.id;
    let was_traced = lhs.traced();
    let (lhs_val, mut tape) = lhs.split_tape();
    if was_traced {
        let op = BackwardOp::MatmulT {
            m,
            n,
            o,
            lhs_id: lhs_val.id,
            rhs_id,
            out_id,
            lhs: lhs_val.data,
            rhs_t: rhs_snapshot,
        };
        tape.add_backward_op(op);
        Tensor { id: out_id, rows: m, cols: o, data: out_data, tape: TapeState::Traced(tape) }
    } else {
        Tensor { id: out_id, rows: m, cols: o, data: out_data, tape: TapeState::Untracked }
    }
}

/// Vector–matrix multiplication: a traced row vector of length `n` times an
/// untracked `n × o` tensor, yielding a row vector of length `o`.
pub fn vecmat_mul<E: Scalar>(lhs: Tensor<E>, rhs: &Tensor<E>, ids: &mut IdSource) -> (r: Tensor<E>)
    requires
        lhs.wf(),
        rhs.wf(),
        !rhs.is_traced(),
        lhs.rows == 1,
        lhs.cols == rhs.rows,
        lhs.id < old(ids).next_id(),
        rhs.id < old(ids).next_id(),
        old(ids).next_id() < u64::MAX,
    ensures
        r.id == old(ids).next_id(),
        final(ids).next_id() == old(ids).next_id() + 1,
        r.rows == 1,
        r.cols == rhs.cols,
        r.data@ == matmul_fwd(lhs.data@, rhs.data@, 1, lhs.cols as int, rhs.cols as int),
        r.is_traced() == lhs.is_traced(),
        r.tape_grads() == lhs.tape_grads(),
        lhs.is_traced() ==> r.tape_ops() == lhs.tape_ops().push(
            OpV::Matmul {
                m: 1,
                n: lhs.cols,
                o: rhs.cols,
                lhs_id: lhs.id,
                rhs_id: rhs.id,
                out_id: old(ids).next_id(),
                lhs: lhs.data@,
                rhs: rhs.data@,
            },
        ),
        !lhs.is_traced() ==> r.tape_ops() == Seq::<OpV<E>>::empty(),
        r.wf(),
{
    let n = lhs.cols;
    let o = rhs.cols;
    let mut out_data = alloc_zeros::<E>(o);
    vecmat_mul_into(&lhs.data, &rhs.data, &mut out_data, n, o);
    let out_id = ids.fresh();
    let rhs_snapshot = copy_buf(&rhs.data);
    let rhs_id = rhs.id;
    let was_traced = lhs.traced();
    let (lhs_val, mut tape) = lhs.split_tape();
    if was_traced {
        let op = BackwardOp::Matmul {
            m: 1,
            n,
            o,
            lhs_id: lhs_val.id,
            rhs_id,
            out_id,
            lhs: lhs_val.data,
            rhs: rhs_snapshot,
        };
        tape.add_backward_op(op);
        Tensor { id: out_id, rows: 1, cols: o, data: out_data, tape: TapeState::Traced(tape) }
    } else {
        Tensor { id: out_id, rows: 1, cols: o, data: out_data, tape: TapeState::Untracked }
    }
}

/// Vector–matrix multiplication with the transpose of the right operand: a
/// traced row vector of length `n` times an untracked `o × n` tensor held
/// transposed, yielding a row vector of length `o`.
pub fn vecmat_mul_transpose<E: Scalar>(lhs: Tensor<E>, rhs_t: &Tensor<E>, ids: &mut IdSource) -> (r:
    Tensor<E>)
    requires
        lhs.wf(),
        rhs_t.wf(),
        !rhs_t.is_traced(),
        lhs.rows == 1,
        lhs.cols == rhs_t.cols,
        lhs.id < old(ids).next_id(),
        rhs_t.id < old(ids).next_id(),
        old(ids).next_id() < u64::MAX,
    ensures
        r.id == old(ids).next_id(),
        final(ids).next_id() == old(ids).next_id() + 1,
        r.rows == 1,
        r.cols == rhs_t.rows,
        r.data@ == matmul_t_fwd(lhs.data@, rhs_t.data@, 1, lhs.cols as int, rhs_t.rows as int),
        r.is_traced() == lhs.is_traced(),
        r.tape_grads() == lhs.tape_grads(),
        lhs.is_traced() ==> r.tape_ops() == lhs.tape_ops().push(
            OpV::MatmulT {
                m: 1,
                n: lhs.cols,
                o: rhs_t.rows,
                lhs_id: lhs.id,
                rhs_id: rhs_t.id,
                out_id: old(ids).next_id(),
                lhs: lhs.data@,
                rhs_t: rhs_t.data@,
            },
        ),
        !lhs.is_traced() ==> r.tape_ops() == Seq::<OpV<E>>::empty(),
        r.wf(),
{
    let n = lhs.cols;
    let o = rhs_t.rows;
    proof {
        assert(o * n == n * o) by (nonlinear_arith);
    }
    let mut out_data = alloc_zeros::<E>(o);
    vecmat_mul_into_yt(&lhs.data, &rhs_t.data, &mut out_data, n, o);
    let out_id = ids.fresh();
    let rhs_snapshot = copy_buf(&rhs_t.data);
    let rhs_id = rhs_t.id;
    let was_traced = lhs.traced();
    let (lhs_val, mut tape) = lhs.split_tape();
    if was_traced {
        let op = BackwardOp::MatmulT {
            m: 1,
            n,
            o,
            lhs_id: lhs_val.id,
            rhs_id,
            out_id,
            lhs: lhs_val.data,
            rhs_t: rhs_snapshot,
        };
        tape.add_backward_op(op);
        Tensor { id: out_id, rows: 1, cols: o, data: out_data, tape: TapeState::Traced(tape) }
    } else {
        Tensor { id: out_id, rows: 1, cols: o, data: out_data, tape: TapeState::Untracked }
    }
}

} // verus!
