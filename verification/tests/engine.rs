//! End-to-end tests of the autodiff engine over IEEE single-precision
//! elements.

use autodiff::collate::{Collate, DefaultCollate};
use autodiff::data_loader::keep_batch;
use autodiff::gradients::Gradients;
use autodiff::matmul::{
    matmat_mul_into, matmat_mul_into_xt, matmat_mul_into_yt, matmul, matmul_transpose,
    vecmat_mul, vecmat_mul_into, vecmat_mul_into_yt, vecmat_mul_transpose, vecvec_mul_into,
};
use autodiff::scalar::Scalar;
use autodiff::sgd::{Momentum, Sgd, SgdConfig};
use autodiff::tape::Tape;
use autodiff::tensor::{backward, Tensor};
use autodiff::unique_id::IdSource;

/// Single-precision element for the engine's scalar contract.
#[derive(Clone, Copy, Debug, PartialEq)]
struct F(f32);

impl Scalar for F {
    // The spec-level operations fix what the contracts mean for `F`; at
    // runtime only the executable operations below them are ever called.
    fn zero_s() -> F {
        F(0.0)
    }
    fn one_s() -> F {
        F(1.0)
    }
    fn add_s(self, other: F) -> F {
        F(self.0 + other.0)
    }
    fn sub_s(self, other: F) -> F {
        F(self.0 - other.0)
    }
    fn mul_s(self, other: F) -> F {
        F(self.0 * other.0)
    }
    fn mul_add_s(self, other: F, acc: F) -> F {
        F(self.0.mul_add(other.0, acc.0))
    }
    fn div_s(self, other: F) -> F {
        F(self.0 / other.0)
    }
    fn neg_s(self) -> F {
        F(-self.0)
    }
    fn abs_s(self) -> F {
        F(self.0.abs())
    }
    fn sign_s(self) -> F {
        self.sign_val()
    }
    fn exp_s(self) -> F {
        F(self.0.exp())
    }
    fn from_count_s(n: usize) -> F {
        F(n as f32)
    }

    fn zero() -> F {
        F(0.0)
    }
    fn one() -> F {
        F(1.0)
    }
    fn plus(self, other: F) -> F {
        F(self.0 + other.0)
    }
    fn minus(self, other: F) -> F {
        F(self.0 - other.0)
    }
    fn times(self, other: F) -> F {
        F(self.0 * other.0)
    }
    fn mul_add(self, other: F, acc: F) -> F {
        F(self.0.mul_add(other.0, acc.0))
    }
    fn div_by(self, other: F) -> F {
        F(self.0 / other.0)
    }
    fn neg(self) -> F {
        F(-self.0)
    }
    fn abs_val(self) -> F {
        F(self.0.abs())
    }
    fn sign_val(self) -> F {
        if self.0 > 0.0 {
            F(1.0)
        } else if self.0 < 0.0 {
            F(-1.0)
        } else {
            F(0.0)
        }
    }
    fn exp_val(self) -> F {
        F(self.0.exp())
    }
    fn from_count(n: usize) -> F {
        F(n as f32)
    }
}

fn fv(xs: &[f32]) -> Vec<F> {
    xs.iter().map(|x| F(*x)).collect()
}

fn unf(v: &Vec<F>) -> Vec<f32> {
    v.iter().map(|x| x.0).collect()
}

fn cfg(lr: f32, momentum: Option<Momentum<F>>, weight_decay: Option<f32>) -> SgdConfig<F> {
    SgdConfig { lr: F(lr), momentum, weight_decay: weight_decay.map(F) }
}

#[test]
fn test_vecmul() {
    let x = fv(&[1.0, 2.0, 3.0]);
    let y = fv(&[1.0, 2.0, 0.5, 1.0, 1.0 / 3.0, 1.0]);
    let y_t = fv(&[1.0, 0.5, 1.0 / 3.0, 2.0, 1.0, 1.0]);
    let expected = vec![3.0, 7.0];

    let mut out = fv(&[0.0; 2]);
    vecmat_mul_into(&x, &y, &mut out, 3, 2);
    assert_eq!(unf(&out), expected);

    let mut out = fv(&[0.0; 2]);
    vecmat_mul_into_yt(&x, &y_t, &mut out, 3, 2);
    assert_eq!(unf(&out), expected);
}

#[test]
fn test_matmul() {
    let x = fv(&[1.0, 2.0, 3.0, 4.0, 5.0, 6.0, 7.0, 8.0, 9.0, 10.0, 11.0, 12.0]);
    let x_t = fv(&[1.0, 4.0, 7.0, 10.0, 2.0, 5.0, 8.0, 11.0, 3.0, 6.0, 9.0, 12.0]);
    let y = fv(&[1.0, 2.0, 3.0, 4.0, 5.0, 6.0]);
    let y_t = fv(&[1.0, 3.0, 5.0, 2.0, 4.0, 6.0]);
    let expected = vec![22.0, 28.0, 49.0, 64.0, 76.0, 100.0, 103.0, 136.0];

    let mut out = fv(&[0.0; 8]);
    matmat_mul_into(&x, &y, &mut out, 4, 3, 2);
    assert_eq!(unf(&out), expected);

    let mut out = fv(&[0.0; 8]);
    matmat_mul_into_xt(&x_t, &y, &mut out, 4, 3, 2);
    assert_eq!(unf(&out), expected);

    let mut out = fv(&[0.0; 8]);
    matmat_mul_into_yt(&x, &y_t, &mut out, 4, 3, 2);
    assert_eq!(unf(&out), expected);
}

#[test]
fn test_vecvec() {
    let x = fv(&[1.0, 2.0, 3.0]);
    let y = fv(&[-1.0, 0.5, -1.0 / 3.0, 0.25]);

    let mut out = fv(&[0.0; 12]);
    vecvec_mul_into(&x, &y, &mut out, 3, 4);
    assert_eq!(
        unf(&out),
        vec![
            -1.0,
            0.5,
            -1.0 / 3.0,
            0.25,
            -2.0,
            1.0,
            -2.0 / 3.0,
            0.5,
            -3.0,
            1.5,
            -1.0,
            0.75,
        ]
    );

    let mut out = fv(&[0.0; 12]);
    vecvec_mul_into(&y, &x, &mut out, 4, 3);
    assert_eq!(
        unf(&out),
        vec![
            -1.0,
            -2.0,
            -3.0,
            0.5,
            1.0,
            1.5,
            -1.0 / 3.0,
            -2.0 / 3.0,
            -1.0,
            0.25,
            0.5,
            0.75,
        ]
    );
}

#[test]
fn test_matmat_mul() {
    let mut ids = IdSource::new();
    let a: Tensor<F> = Tensor::new(
        4,
        3,
        fv(&[
            0.5086, 0.5234, 0.2684, 0.8075, 0.8437, 0.9951, 0.0774, 0.7539, 0.8894, 0.8119,
            0.2693, 0.7249,
        ]),
        &mut ids,
    );
    let b: Tensor<F> = Tensor::new(3, 2, fv(&[0.4651, 0.9106, 0.3360, 0.5534, 0.8092, 0.3827]), &mut ids);
    let r = matmul(a.trace(), &b, &mut ids);
    assert_eq!(
        unf(r.data()),
        vec![
            0.62960154, 0.8554974, 1.4642863, 1.5830379, 1.0090116, 0.82806206, 1.0546886,
            1.165766
        ]
    );
    let loss = r.exp(&mut ids).mean(&mut ids);
    let gradients = backward(loss);
    assert_eq!(
        unf(gradients.ref_gradient(a.id).unwrap()),
        vec![
            0.37689444, 0.24156547, 0.30238447, 0.80570966, 0.5184905, 0.6703743, 0.4199963,
            0.2735345, 0.38693744, 0.5321113, 0.34252504, 0.4438907
        ]
    );
    assert_eq!(
        unf(gradients.ref_gradient(b.id).unwrap()),
        vec![0.8737376, 0.9888564, 0.9339924, 0.991189, 1.1659734, 1.2298465]
    );
}

#[test]
fn test_matmul_transpose() {
    let mut ids = IdSource::new();
    let a: Tensor<F> = Tensor::new(
        4,
        3,
        fv(&[
            0.5086, 0.5234, 0.2684, 0.8075, 0.8437, 0.9951, 0.0774, 0.7539, 0.8894, 0.8119,
            0.2693, 0.7249,
        ]),
        &mut ids,
    );
    let b: Tensor<F> = Tensor::new(2, 3, fv(&[0.4651, 0.3360, 0.8092, 0.9106, 0.5534, 0.3827]), &mut ids);
    let r = matmul_transpose(a.trace(), &b, &mut ids);
    assert_eq!(
        unf(r.data()),
        vec![
            0.62960154, 0.8554974, 1.4642863, 1.5830379, 1.0090116, 0.82806206, 1.0546886,
            1.165766
        ]
    );
    let gradients = backward(r.mean(&mut ids));
    assert_eq!(
        unf(gradients.ref_gradient(a.id).unwrap()),
        vec![
            0.1719625, 0.111175, 0.1489875, 0.1719625, 0.111175, 0.1489875, 0.1719625, 0.111175,
            0.1489875, 0.1719625, 0.111175, 0.1489875
        ]
    );
}

#[test]
fn test_vecmat_mul() {
    let mut ids = IdSource::new();
    let a: Tensor<F> = Tensor::vector(fv(&[0.7296, 0.3974, 0.9487]), &mut ids);
    let b: Tensor<F> = Tensor::new(3, 2, fv(&[0.7804, 0.5540, 0.5378, 0.8401, 0.5042, 0.8604]), &mut ids);
    let r = vecmat_mul(a.trace(), &b, &mut ids);
    assert_eq!(unf(r.data()), vec![1.261436, 1.5543157]);
    let gradients = backward(r.exp(&mut ids).mean(&mut ids));
    assert_eq!(
        unf(gradients.ref_gradient(a.id).unwrap()),
        vec![2.6883178, 2.9369607, 2.9256766]
    );
    assert_eq!(
        unf(gradients.ref_gradient(b.id).unwrap()),
        vec![1.2879219, 1.7261779, 0.70150787, 0.94021803, 1.6746868, 2.244552]
    );
}

#[test]
fn test_vecmat_mul_transpose() {
    let mut ids = IdSource::new();
    let a: Tensor<F> = Tensor::vector(fv(&[0.7296, 0.3974, 0.9487]), &mut ids);
    let b: Tensor<F> = Tensor::new(2, 3, fv(&[0.7804, 0.5378, 0.5042, 0.5540, 0.8401, 0.8604]), &mut ids);
    let r = vecmat_mul_transpose(a.trace(), &b, &mut ids);
    assert_eq!(unf(r.data()), vec![1.261436, 1.5543157]);
    let gradients = backward(r.mean(&mut ids));
    assert_eq!(
        unf(gradients.ref_gradient(a.id).unwrap()),
        vec![0.66719997, 0.68895, 0.6823]
    );
}

#[test]
fn test_perfect_sgd() {
    let mut ids = IdSource::new();
    let mut sgd: Sgd<F> = Sgd::new(cfg(1.0, None, None));

    let mut params = vec![Tensor::<F>::zeros(1, 5, &mut ids)];
    let targ = Tensor::<F>::ones(1, 5, &mut ids);
    for _ in 0..5 {
        let loss = params[0].trace().sub(&targ, &mut ids).abs(&mut ids).mean(&mut ids);
        let gradients = backward(loss);
        sgd.update(&mut params, gradients).expect("");
    }
    assert_eq!(unf(params[0].data()), vec![1.0; 5]);
    assert_eq!(unf(targ.data()), vec![1.0; 5]);
}

fn run_sgd_trace(sgd: &mut Sgd<F>, expected: &[[f32; 5]]) {
    let mut ids = IdSource::new();
    let mut params = vec![Tensor::<F>::ones(1, 5, &mut ids)];
    let rate = Tensor::vector(fv(&[0.1, 1.0, 2.0, 10.0, 100.0]), &mut ids);

    for e in expected.iter() {
        let loss = params[0].trace().mul(&rate, &mut ids).mean(&mut ids);
        let gradients = backward(loss);
        sgd.update(&mut params, gradients).expect("");
        assert_eq!(unf(params[0].data()), e.to_vec());
    }
}

#[test]
fn test_sgd_no_momentum() {
    let mut sgd: Sgd<F> = Sgd::new(cfg(1e-2, None, None));
    let expected = [
        [0.9998, 0.998, 0.996, 0.98, 0.8],
        [0.99960005, 0.99600005, 0.992, 0.96000004, 0.6],
        [0.9994001, 0.9940001, 0.988, 0.94000006, 0.40000004],
        [0.9992001, 0.9920001, 0.98399997, 0.9200001, 0.20000005],
        [0.99900013, 0.9900001, 0.97999996, 0.9000001, 5.9604645e-8],
    ];
    run_sgd_trace(&mut sgd, &expected);
}

#[test]
fn test_sgd_classic_momentum() {
    let mut sgd: Sgd<F> = Sgd::new(cfg(1e-2, Some(Momentum::Classic(F(0.5))), None));
    let expected = [
        [0.9998, 0.998, 0.996, 0.98, 0.8],
        [0.99950004, 0.995, 0.99, 0.95000005, 0.5],
        [0.99915004, 0.9915, 0.983, 0.915, 0.15],
        [0.99877506, 0.98775, 0.9755, 0.8775, -0.225],
        [0.9983876, 0.983875, 0.96775, 0.83875, -0.61249995],
    ];
    run_sgd_trace(&mut sgd, &expected);
}

#[test]
fn test_sgd_nesterov_momentum() {
    let mut sgd: Sgd<F> = Sgd::new(cfg(1e-2, Some(Momentum::Nesterov(F(0.5))), None));
    let expected = [
        [0.9997, 0.997, 0.994, 0.97, 0.70000005],
        [0.99935, 0.9935, 0.987, 0.935, 0.35000005],
        [0.99897504, 0.98974997, 0.9795, 0.8975, -0.024999946],
        [0.99858755, 0.98587495, 0.97175, 0.85875, -0.41249993],
        [0.9981938, 0.98193747, 0.963875, 0.819375, -0.8062499],
    ];
    run_sgd_trace(&mut sgd, &expected);
}

#[test]
fn test_sgd_weight_decay_no_momentum() {
    let mut sgd: Sgd<F> = Sgd::new(cfg(1e-2, None, Some(1e-3)));
    let expected = [
        [0.9988, 0.997, 0.995, 0.979, 0.799],
        [0.99760115, 0.994003, 0.990005, 0.958021, 0.59820104],
        [0.9964036, 0.991009, 0.98501503, 0.937063, 0.39760286],
        [0.9952072, 0.988018, 0.98003, 0.9161259, 0.19720526],
        [0.994012, 0.98502994, 0.97505, 0.8952098, -0.0029919297],
    ];
    run_sgd_trace(&mut sgd, &expected);
}

#[test]
fn test_sgd_weight_decay_classic_momentum() {
    let mut sgd: Sgd<F> = Sgd::new(cfg(1e-2, Some(Momentum::Classic(F(0.5))), Some(1e-3)));
    let expected = [
        [0.9988, 0.997, 0.995, 0.979, 0.799],
        [0.9975012, 0.99300295, 0.988005, 0.948021, 0.49820104],
        [0.9961537, 0.98850995, 0.980017, 0.91207296, 0.14770284],
        [0.99478257, 0.98377144, 0.971537, 0.87366086, -0.22744486],
        [0.9934003, 0.97891265, 0.96281546, 0.8340372, -0.61471736],
    ];
    run_sgd_trace(&mut sgd, &expected);
}

#[test]
fn test_sgd_unused_params() {
    let mut ids = IdSource::new();
    let mut sgd: Sgd<F> = Sgd::new(cfg(1e-2, None, None));
    let mut params = vec![
        Tensor::<F>::zeros(1, 5, &mut ids),
        Tensor::<F>::ones(1, 5, &mut ids),
    ];
    let first_id = params[0].id;
    let loss = params[1].trace().mean(&mut ids);
    let g = backward(loss);
    let err = sgd.update(&mut params, g).expect_err("");
    assert_eq!(err.ids, vec![first_id]);
}

#[test]
fn test_reverse_order_replay_chain() {
    // A three-operation linear chain whose gradients are hand-computed:
    // y = x ⊙ c1, z = y - c2, l = mean(z). With x = [2, 3] and c1 = [5, 7]:
    // d_z = [1/2, 1/2], d_y = d_z, d_x = c1 ⊙ d_y = [2.5, 3.5].
    let mut ids = IdSource::new();
    let x = Tensor::vector(fv(&[2.0, 3.0]), &mut ids);
    let c1 = Tensor::vector(fv(&[5.0, 7.0]), &mut ids);
    let c2 = Tensor::vector(fv(&[1.0, 1.0]), &mut ids);
    let y = x.trace().mul(&c1, &mut ids);
    assert_eq!(unf(y.data()), vec![10.0, 21.0]);
    let z = y.sub(&c2, &mut ids);
    assert_eq!(unf(z.data()), vec![9.0, 20.0]);
    let l = z.mean(&mut ids);
    assert_eq!(unf(l.data()), vec![14.5]);
    let grads = backward(l);
    assert_eq!(unf(grads.ref_gradient(x.id).unwrap()), vec![2.5, 3.5]);
    assert_eq!(unf(grads.ref_gradient(c1.id).unwrap()), vec![1.0, 1.5]);
    assert_eq!(unf(grads.ref_gradient(c2.id).unwrap()), vec![-0.5, -0.5]);
}

#[test]
fn test_matmul_transpose_duality_values() {
    // matmul(A, B) and matmul_transpose(A, Bᵗ) agree elementwise, and under
    // the same mean-loss seed they give the same gradient for A and
    // transposed gradients for the right operand.
    let mut ids = IdSource::new();
    let a: Tensor<F> = Tensor::new(2, 3, fv(&[1.0, 2.0, 3.0, 4.0, 5.0, 6.0]), &mut ids);
    let b: Tensor<F> = Tensor::new(3, 2, fv(&[1.0, 2.0, 3.0, 4.0, 5.0, 6.0]), &mut ids);
    let b_t: Tensor<F> = Tensor::new(2, 3, fv(&[1.0, 3.0, 5.0, 2.0, 4.0, 6.0]), &mut ids);

    let r1 = matmul(a.trace(), &b, &mut ids);
    let r2 = matmul_transpose(a.trace(), &b_t, &mut ids);
    assert_eq!(unf(r1.data()), unf(r2.data()));

    let g1 = backward(r1.mean(&mut ids));
    let g2 = backward(r2.mean(&mut ids));
    assert_eq!(
        unf(g1.ref_gradient(a.id).unwrap()),
        unf(g2.ref_gradient(a.id).unwrap())
    );
    let db = unf(g1.ref_gradient(b.id).unwrap());
    let dbt = unf(g2.ref_gradient(b_t.id).unwrap());
    for i in 0..3 {
        for j in 0..2 {
            assert_eq!(db[i * 2 + j], dbt[j * 3 + i]);
        }
    }
}

#[test]
fn test_gradient_store_zero_allocation() {
    // A buffer never seen reads as zeros however often it is fetched, and a
    // removal leaves no stale data behind.
    let mut store: Gradients<F> = Gradients::new();
    assert_eq!(unf(&store.get_or_zero(7, 3)), vec![0.0, 0.0, 0.0]);
    assert_eq!(unf(&store.get_or_zero(7, 3)), vec![0.0, 0.0, 0.0]);
    store.insert(7, fv(&[1.0, 2.0, 3.0]));
    assert_eq!(unf(&store.get_or_zero(7, 3)), vec![1.0, 2.0, 3.0]);
    let taken = store.remove(7).unwrap();
    assert_eq!(unf(&taken), vec![1.0, 2.0, 3.0]);
    assert!(store.remove(7).is_none());
    assert_eq!(unf(&store.get_or_zero(7, 3)), vec![0.0, 0.0, 0.0]);
}

#[test]
fn test_gradient_store_dual_fetch() {
    let mut store: Gradients<F> = Gradients::new();
    store.insert(1, fv(&[4.0, 5.0]));
    store.insert(2, fv(&[6.0]));
    let (writable, readable) = store.mut_and_ref(1, 2, 2, 1);
    assert_eq!(unf(&writable), vec![4.0, 5.0]);
    assert_eq!(unf(&readable), vec![6.0]);
    store.insert(1, writable);
    assert_eq!(unf(store.ref_gradient(1).unwrap()), vec![4.0, 5.0]);
    assert_eq!(unf(store.ref_gradient(2).unwrap()), vec![6.0]);
}

#[test]
fn test_tape_merge_keeps_recording() {
    let mut ids = IdSource::new();
    let x = Tensor::vector(fv(&[2.0]), &mut ids);
    let c = Tensor::vector(fv(&[3.0]), &mut ids);
    let y = x.trace().mul(&c, &mut ids);
    let (value, mut tape) = y.split_tape();
    tape.merge(Tape::new());
    let loss = value.put_tape(tape);
    let grads = backward(loss);
    assert_eq!(unf(grads.ref_gradient(x.id).unwrap()), vec![3.0]);
}

#[test]
fn test_untracked_operations_record_nothing() {
    let mut ids = IdSource::new();
    let x = Tensor::vector(fv(&[2.0, 4.0]), &mut ids);
    let c = Tensor::vector(fv(&[3.0, 5.0]), &mut ids);
    let y = x.mul(&c, &mut ids);
    assert_eq!(unf(y.data()), vec![6.0, 20.0]);
    assert!(!y.traced());
}

#[test]
fn test_id_source_is_monotonic() {
    let mut ids = IdSource::new();
    let a = ids.fresh();
    let b = ids.fresh();
    let c = ids.fresh();
    assert_eq!((a, b, c), (0, 1, 2));
}

#[test]
fn test_keep_batch_rule() {
    assert!(keep_batch(4, 4, true));
    assert!(keep_batch(4, 4, false));
    assert!(keep_batch(3, 4, false));
    assert!(!keep_batch(3, 4, true));
    assert!(!keep_batch(0, 4, false));
    assert!(!keep_batch(0, 4, true));
}

#[test]
fn test_default_collate_stacks_rows() {
    let mut ids = IdSource::new();
    let s1 = Tensor::vector(fv(&[1.0, 2.0]), &mut ids);
    let s2 = Tensor::vector(fv(&[3.0, 4.0]), &mut ids);
    let batch = DefaultCollate.collate(vec![s1, s2], 2, &mut ids);
    assert_eq!(batch.rows, 2);
    assert_eq!(batch.cols, 2);
    assert_eq!(unf(batch.data()), vec![1.0, 2.0, 3.0, 4.0]);
}
