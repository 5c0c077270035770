//! Stochastic gradient descent over a completed gradient store.
//!
//! The optimizer owns its hyperparameters, a persistent velocity store (one
//! buffer per parameter identity, surviving across update calls), and the
//! gradient store most recently handed to it. For each parameter, in order,
//! it claims the parameter's gradient out of the store, applies the
//! configured momentum rule and decoupled weight decay, and subtracts the
//! resulting update from the parameter in place. Parameters whose gradient
//! is absent are left untouched and reported together once the traversal is
//! complete; updates already applied are not rolled back.
//!
//! Weight decay is decoupled: it is added to the update after the momentum
//! step, directly shrinking the weights, and is therefore not equivalent to
//! folding an L2 term into the raw gradient when momentum is active.

use vstd::prelude::*;

use crate::gradients::{entry_or_zero, Gradients};
use crate::scalar::Scalar;
use crate::tensor::Tensor;

verus! {

/// Momentum rule of the update step.
#[derive(Clone, Copy)]
pub enum Momentum<E: Scalar> {
    /// `v ← g + u·v`, update `lr·v`.
    Classic(E),
    /// `v ← g + u·v`, update `lr·(g + u·v)` over the already-updated `v`.
    Nesterov(E),
}

/// Hyperparameter configuration of [`Sgd`].
#[derive(Clone, Copy)]
pub struct SgdConfig<E: Scalar> {
    /// Learning rate.
    pub lr: E,
    /// Optional momentum rule.
    pub momentum: Option<Momentum<E>>,
    /// Optional decoupled weight-decay coefficient.
    pub weight_decay: Option<E>,
}

/// The recoverable outcome of an update pass that found parameters with no
/// gradient: their identities, in traversal order.
#[derive(Debug)]
pub struct UnusedParamsError {
    pub ids: Vec<u64>,
}

/// The velocity buffer after one update step for one parameter: unchanged
/// when no momentum is configured, `g + u·v` otherwise.
pub open spec fn new_velocity<E: Scalar>(cfg: SgdConfig<E>, g: Seq<E>, v0: Seq<E>) -> Seq<E> {
    match cfg.momentum {
        Option::None => v0,
        Option::Some(Momentum::Classic(u)) => Seq::new(
            g.len(),
            |i: int| g[i].add_s(u.mul_s(v0[i])),
        ),
        Option::Some(Momentum::Nesterov(u)) => Seq::new(
            g.len(),
            |i: int| g[i].add_s(u.mul_s(v0[i])),
        ),
    }
}

/// The value subtracted from one parameter: the momentum-adjusted, scaled
/// gradient, with decoupled weight decay added after the momentum step.
pub open spec fn update_value<E: Scalar>(
    cfg: SgdConfig<E>,
    g: Seq<E>,
    v0: Seq<E>,
    p: Seq<E>,
) -> Seq<E> {
    let v1 = new_velocity(cfg, g, v0);
    let u1 = match cfg.momentum {
        Option::None => Seq::new(g.len(), |i: int| g[i].mul_s(cfg.lr)),
        Option::Some(Momentum::Classic(u)) => Seq::new(g.len(), |i: int| v1[i].mul_s(cfg.lr)),
        Option::Some(Momentum::Nesterov(u)) => Seq::new(
            g.len(),
            |i: int| g[i].add_s(u.mul_s(v1[i])).mul_s(cfg.lr),
        ),
    };
    match cfg.weight_decay {
        Option::None => u1,
        Option::Some(wd) => Seq::new(g.len(), |i: int| u1[i].add_s(wd.mul_s(p[i]))),
    }
}

/// `v ← g + u·v`, elementwise.
fn mix_velocity<E: Scalar>(v: &mut Vec<E>, g: &Vec<E>, u: E)
    requires
        old(v)@.len() == g@.len(),
    ensures
        final(v)@ == Seq::new(g@.len(), |i: int| g@[i].add_s(u.mul_s(old(v)@[i]))),
{
    let mut i: usize = 0;
    while i < v.len()
        invariant
            v@.len() == g@.len(),
            i <= v@.len(),
            forall|k: int| 0 <= k < i ==> v@[k] == g@[k].add_s(u.mul_s(old(v)@[k])),
            forall|k: int| i <= k < v@.len() ==> v@[k] == old(v)@[k],
        decreases v@.len() - i,
    {
        let w = g[i].plus(u.times(v[i]));
        v.set(i, w);
        i = i + 1;
    }
    proof {
        assert(v@ =~= Seq::new(g@.len(), |i: int| g@[i].add_s(u.mul_s(old(v)@[i]))));
    }
}

/// `g ← v·lr`, elementwise.
fn scale_from<E: Scalar>(g: &mut Vec<E>, v: &Vec<E>, lr: E)
    requires
        old(g)@.len() == v@.len(),
    ensures
        final(g)@ == Seq::new(v@.len(), |i: int| v@[i].mul_s(lr)),
{
    let mut i: usize = 0;
    while i < g.len()
        invariant
            g@.len() == v@.len(),
            i <= g@.len(),
            forall|k: int| 0 <= k < i ==> g@[k] == v@[k].mul_s(lr),
        decreases g@.len() - i,
    {
        let w = v[i].times(lr);
        g.set(i, w);
        i = i + 1;
    }
    proof {
        assert(g@ =~= Seq::new(v@.len(), |i: int| v@[i].mul_s(lr)));
    }
}

/// `g ← (g + u·v)·lr`, elementwise: the reference nesterov form, reusing
/// the already-updated velocity.
fn nesterov_scale<E: Scalar>(g: &mut Vec<E>, v: &Vec<E>, u: E, lr: E)
    requires
        old(g)@.len() == v@.len(),
    ensures
        final(g)@ == Seq::new(v@.len(), |i: int| old(g)@[i].add_s(u.mul_s(v@[i])).mul_s(lr)),
{
    let mut i: usize = 0;
    while i < g.len()
        invariant
            g@.len() == v@.len(),
            i <= g@.len(),
            forall|k: int| 0 <= k < i ==> g@[k] == old(g)@[k].add_s(u.mul_s(v@[k])).mul_s(lr),
            forall|k: int| i <= k < g@.len() ==> g@[k] == old(g)@[k],
        decreases g@.len() - i,
    {
        let w = g[i].plus(u.times(v[i])).times(lr);
        g.set(i, w);
        i = i + 1;
    }
    proof {
        assert(g@ =~= Seq::new(v@.len(), |i: int| old(g)@[i].add_s(u.mul_s(v@[i])).mul_s(lr)));
    }
}

/// `g ← g·lr`, elementwise.
fn scale_in_place<E: Scalar>(g: &mut Vec<E>, lr: E)
    ensures
        final(g)@ == Seq::new(old(g)@.len(), |i: int| old(g)@[i].mul_s(lr)),
{
    let mut i: usize = 0;
    while i < g.len()
        invariant
            g@.len() == old(g)@.len(),
            i <= g@.len(),
            forall|k: int| 0 <= k < i ==> g@[k] == old(g)@[k].mul_s(lr),
            forall|k: int| i <= k < g@.len() ==> g@[k] == old(g)@[k],
        decreases g@.len() - i,
    {
        let w = g[i].times(lr);
        g.set(i, w);
        i = i + 1;
    }
    proof {
        assert(g@ =~= Seq::new(old(g)@.len(), |i: int| old(g)@[i].mul_s(lr)));
    }
}

/// `g ← g + wd·p`, elementwise: decoupled weight decay.
fn add_scaled<E: Scalar>(g: &mut Vec<E>, p: &Vec<E>, wd: E)
    requires
        old(g)@.len() == p@.len(),
    ensures
        final(g)@ == Seq::new(p@.len(), |i: int| old(g)@[i].add_s(wd.mul_s(p@[i]))),
{
    let mut i: usize = 0;
    while i < g.len()
        invariant
            g@.len() == p@.len(),
            i <= g@.len(),
            forall|k: int| 0 <= k < i ==> g@[k] == old(g)@[k].add_s(wd.mul_s(p@[k])),
            forall|k: int| i <= k < g@.len() ==> g@[k] == old(g)@[k],
        decreases g@.len() - i,
    {
        let w = g[i].plus(wd.times(p[i]));
        g.set(i, w);
        i = i + 1;
    }
    proof {
        assert(g@ =~= Seq::new(p@.len(), |i: int| old(g)@[i].add_s(wd.mul_s(p@[i]))));
    }
}

/// `p ← p - u`, elementwise: the in-place parameter update.
fn sub_in_place<E: Scalar>(p: &mut Vec<E>, u: &Vec<E>)
    requires
        old(p)@.len() == u@.len(),
    ensures
        final(p)@ == Seq::new(u@.len(), |i: int| old(p)@[i].sub_s(u@[i])),
{
    let mut i: usize = 0;
    while i < p.len()
        invariant
            p@.len() == u@.len(),
            i <= p@.len(),
            forall|k: int| 0 <= k < i ==> p@[k] == old(p)@[k].sub_s(u@[k]),
            forall|k: int| i <= k < p@.len() ==> p@[k] == old(p)@[k],
        decreases p@.len() - i,
    {
        let w = p[i].minus(u[i]);
        p.set(i, w);
        i = i + 1;
    }
    proof {
        assert(p@ =~= Seq::new(u@.len(), |i: int| old(p)@[i].sub_s(u@[i])));
    }
}

/// Stochastic gradient descent with optional classic or nesterov momentum
/// and optional decoupled weight decay.
pub struct Sgd<E: Scalar> {
    /// Hyperparameter configuration.
    pub cfg: SgdConfig<E>,
    velocity: Gradients<E>,
    gradients: Gradients<E>,
}

impl<E: Scalar> Sgd<E> {
    /// The hyperparameter configuration.
    pub closed spec fn config(self) -> SgdConfig<E> {
        self.cfg
    }

    /// The persistent velocity store's contents.
    pub closed spec fn velocity_view(self) -> Map<u64, Seq<E>> {
        self.velocity@
    }

    /// The working gradient store's contents.
    pub closed spec fn gradients_view(self) -> Map<u64, Seq<E>> {
        self.gradients@
    }

    /// An optimizer with the given hyperparameters and empty stores.
    pub fn new(cfg: SgdConfig<E>) -> (r: Sgd<E>)
        ensures
            r.config() == cfg,
            r.velocity_view() == Map::<u64, Seq<E>>::empty(),
            r.gradients_view() == Map::<u64, Seq<E>>::empty(),
    {
        Sgd { cfg, velocity: Gradients::new(), gradients: Gradients::new() }
    }

    /// Claims the gradient for one parameter out of the working store and
    /// turns it into the value to subtract from the parameter: `None` — and
    /// no change to any store — when no gradient is present; otherwise the
    /// momentum-adjusted, decayed update, with the velocity store advanced
    /// under the parameter's identity.
    pub fn gradient(&mut self, id: u64, param: &Vec<E>) -> (r: Option<Vec<E>>)
        requires
            old(self).gradients_view().contains_key(id) ==> old(self).gradients_view()[id].len()
                == param@.len(),
        ensures
            final(self).config() == old(self).config(),
            !old(self).gradients_view().contains_key(id) ==> {
                &&& r is None
                &&& final(self).gradients_view() == old(self).gradients_view()
                &&& final(self).velocity_view() == old(self).velocity_view()
            },
            old(self).gradients_view().contains_key(id) ==> {
                let g = old(self).gradients_view()[id];
                let v0 = entry_or_zero(old(self).velocity_view(), id, g.len());
                &&& r matches Some(u) && u@ == update_value(old(self).config(), g, v0, param@)
                &&& final(self).gradients_view() == old(self).gradients_view().remove(id)
                &&& final(self).velocity_view() == (match old(self).config().momentum {
                    Option::None => old(self).velocity_view(),
                    Option::Some(m) => old(self).velocity_view().insert(
                        id,
                        new_velocity(old(self).config(), g, v0),
                    ),
                })
            },
    {
        let taken = self.gradients.remove(id);
        match taken {
            None => None,
            Some(mut g) => {
                let n = g.len();
                match self.cfg.momentum {
                    None => {
                        let lr = self.cfg.lr;
                        scale_in_place(&mut g, lr);
                    },
                    Some(Momentum::Classic(u)) => {
                        let lr = self.cfg.lr;
                        let mut v = self.velocity.take_or_zero(id, n);
                        mix_velocity(&mut v, &g, u);
                        scale_from(&mut g, &v, lr);
                        self.velocity.insert(id, v);
                    },
                    Some(Momentum::Nesterov(u)) => {
                        let lr = self.cfg.lr;
                        let mut v = self.velocity.take_or_zero(id, n);
                        mix_velocity(&mut v, &g, u);
                        nesterov_scale(&mut g, &v, u, lr);
                        self.velocity.insert(id, v);
                    },
                }
                match self.cfg.weight_decay {
                    None => {},
                    Some(wd) => {
                        add_scaled(&mut g, param, wd);
                    },
                }
                proof {
                    let g0 = old(self).gradients_view()[id];
                    let v0 = entry_or_zero(old(self).velocity_view(), id, g0.len());
                    assert(g@ =~= update_value(old(self).cfg, g0, v0, param@));
                    match old(self).cfg.momentum {
                        Option::None => {},
                        Option::Some(m) => {
                            assert(self.velocity_view() =~~= old(self).velocity_view().insert(
                                id,
                                new_velocity(old(self).cfg, g0, v0),
                            ));
                        },
                    }
                }
                Some(g)
            },
        }
    }
}

/// The parameters as the update traversal sees them: identity and value, in
/// traversal order.
pub open spec fn param_seq<E: Scalar>(ps: Seq<Tensor<E>>) -> Seq<(u64, Seq<E>)> {
    Seq::new(ps.len(), |i: int| (ps[i].id, ps[i].data@))
}

/// The complete outcome of one update traversal: the two stores it leaves
/// behind, every parameter's new value in traversal order, and the
/// identities found without a gradient.
pub struct SgdStep<E: Scalar> {
    pub grads: Map<u64, Seq<E>>,
    pub vel: Map<u64, Seq<E>>,
    pub values: Seq<Seq<E>>,
    pub unused: Seq<u64>,
}

/// What one full update pass does, parameter by parameter in traversal
/// order: a parameter whose identity is in the store has its gradient
/// claimed (removed) and its value decreased by [`update_value`], advancing
/// the velocity store; a parameter whose identity is absent is recorded as
/// unused and left untouched.
pub open spec fn run_sgd<E: Scalar>(
    cfg: SgdConfig<E>,
    grads: Map<u64, Seq<E>>,
    vel: Map<u64, Seq<E>>,
    ps: Seq<(u64, Seq<E>)>,
) -> SgdStep<E>
    decreases ps.len(),
{
    if ps.len() == 0 {
        SgdStep { grads, vel, values: Seq::empty(), unused: Seq::empty() }
    } else {
        let id = ps[0].0;
        let p = ps[0].1;
        if grads.contains_key(id) {
            let g = grads[id];
            let v0 = entry_or_zero(vel, id, g.len());
            let u = update_value(cfg, g, v0, p);
            let newp = Seq::new(u.len(), |i: int| p[i].sub_s(u[i]));
            let vel1 = match cfg.momentum {
                Option::None => vel,
                Option::Some(m) => vel.insert(id, new_velocity(cfg, g, v0)),
            };
            let rest = run_sgd(cfg, grads.remove(id), vel1, ps.drop_first());
            SgdStep {
                grads: rest.grads,
                vel: rest.vel,
                values: seq![newp] + rest.values,
                unused: rest.unused,
            }
        } else {
            let rest = run_sgd(cfg, grads, vel, ps.drop_first());
            SgdStep {
                grads: rest.grads,
                vel: rest.vel,
                values: seq![p] + rest.values,
                unused: seq![id] + rest.unused,
            }
        }
    }
}

/// An update pass yields exactly one value per parameter, and no more
/// unused identities than parameters.
pub proof fn lemma_run_sgd_lens<E: Scalar>(
    cfg: SgdConfig<E>,
    grads: Map<u64, Seq<E>>,
    vel: Map<u64, Seq<E>>,
    ps: Seq<(u64, Seq<E>)>,
)
    ensures
        run_sgd(cfg, grads, vel, ps).values.len() == ps.len(),
        run_sgd(cfg, grads, vel, ps).unused.len() <= ps.len(),
    decreases ps.len(),
{
    if ps.len() > 0 {
        let id = ps[0].0;
        let p = ps[0].1;
        if grads.contains_key(id) {
            let g = grads[id];
            let v0 = entry_or_zero(vel, id, g.len());
            let vel1 = match cfg.momentum {
                Option::None => vel,
                Option::Some(m) => vel.insert(id, new_velocity(cfg, g, v0)),
            };
            lemma_run_sgd_lens(cfg, grads.remove(id), vel1, ps.drop_first());
        } else {
            lemma_run_sgd_lens(cfg, grads, vel, ps.drop_first());
        }
    }
}

impl<E: Scalar> Sgd<E> {
    /// One optimization step: stores `gradients` as the working set, visits
    /// every parameter in order, updates each one whose gradient is present
    /// in place, and reports the identities of those whose gradient was
    /// absent. Already-applied updates stand even when the pass reports
    /// unused parameters.
    pub fn update(&mut self, params: &mut Vec<Tensor<E>>, gradients: Gradients<E>) -> (r: Result<
        (),
        UnusedParamsError,
    >)
        requires
            forall|i: int|
                #![trigger old(params)@[i]]
                0 <= i < old(params)@.len() && gradients@.contains_key(old(params)@[i].id)
                    ==> gradients@[old(params)@[i].id].len() == old(params)@[i].data@.len(),
        ensures
            final(self).config() == old(self).config(),
            final(self).gradients_view() == run_sgd(
                old(self).config(),
                gradients@,
                old(self).velocity_view(),
                param_seq(old(params)@),
            ).grads,
            final(self).velocity_view() == run_sgd(
                old(self).config(),
                gradients@,
                old(self).velocity_view(),
                param_seq(old(params)@),
            ).vel,
            final(params)@.len() == old(params)@.len(),
            forall|i: int|
                #![trigger final(params)@[i]]
                0 <= i < old(params)@.len() ==> {
                    &&& final(params)@[i].id == old(params)@[i].id
                    &&& final(params)@[i].rows == old(params)@[i].rows
                    &&& final(params)@[i].cols == old(params)@[i].cols
                    &&& final(params)@[i].tape == old(params)@[i].tape
                    &&& final(params)@[i].data@ == run_sgd(
                        old(self).config(),
                        gradients@,
                        old(self).velocity_view(),
                        param_seq(old(params)@),
                    ).values[i]
                },
            ({
                let step = run_sgd(
                    old(self).config(),
                    gradients@,
                    old(self).velocity_view(),
                    param_seq(old(params)@),
                );
                match r {
                    Ok(ok) => step.unused.len() == 0,
                    Err(e) => step.unused.len() > 0 && e.ids@ == step.unused,
                }
            }),
    {
        self.gradients = gradients;
        let ghost cfg0 = self.cfg;
        let ghost grads0 = self.gradients@;
        let ghost vel0 = self.velocity@;
        let ghost full = param_seq(old(params)@);
        let ghost target = run_sgd(cfg0, grads0, vel0, full);
        proof {
            lemma_run_sgd_lens(cfg0, grads0, vel0, full);
            assert(params@ =~= old(params)@.skip(0));
            assert(param_seq(params@) =~= full);
            assert(target.values.skip(0) =~= target.values);
            assert(target.unused.skip(0) =~= target.unused);
            assert(Seq::<u64>::empty() =~= target.unused.take(0));
        }
        let mut out: Vec<Tensor<E>> = Vec::new();
        let mut unused_ids: Vec<u64> = Vec::new();
        while params.len() > 0
            invariant
                self.cfg == cfg0,
                target == run_sgd(cfg0, grads0, vel0, full),
                target.values.len() == full.len(),
                out@.len() + params@.len() == full.len(),
                unused_ids@.len() <= out@.len(),
                unused_ids@.len() <= target.unused.len(),
                params@ == old(params)@.skip(out@.len() as int),
                full == param_seq(old(params)@),
                forall|i: int|
                    #![trigger old(params)@[i]]
                    0 <= i < old(params)@.len() && grads0.contains_key(old(params)@[i].id)
                        ==> grads0[old(params)@[i].id].len() == old(params)@[i].data@.len(),
                forall|k: u64| #[trigger]
                    self.gradients_view().contains_key(k) ==> grads0.contains_key(k)
                        && self.gradients_view()[k] == grads0[k],
                run_sgd(cfg0, self.gradients_view(), self.velocity_view(), param_seq(params@)).grads
                    == target.grads,
                run_sgd(cfg0, self.gradients_view(), self.velocity_view(), param_seq(params@)).vel
                    == target.vel,
                run_sgd(cfg0, self.gradients_view(), self.velocity_view(), param_seq(params@)).values
                    == target.values.skip(out@.len() as int),
                run_sgd(cfg0, self.gradients_view(), self.velocity_view(), param_seq(params@)).unused
                    == target.unused.skip(unused_ids@.len() as int),
                unused_ids@ == target.unused.take(unused_ids@.len() as int),
                forall|i: int|
                    #![trigger out@[i]]
                    0 <= i < out@.len() ==> {
                        &&& out@[i].id == old(params)@[i].id
                        &&& out@[i].rows == old(params)@[i].rows
                        &&& out@[i].cols == old(params)@[i].cols
                        &&& out@[i].tape == old(params)@[i].tape
                        &&& out@[i].data@ == target.values[i]
                    },
            decreases params@.len(),
        {
            let ghost k = out@.len() as int;
            let ghost ulen = unused_ids@.len() as int;
            let ghost ps_pre = param_seq(params@);
            let ghost g_pre = self.gradients_view();
            let ghost v_pre = self.velocity_view();
            let mut t = params.remove(0);
            proof {
                assert(old(params)@.skip(k)[0] == old(params)@[k]);
                assert(t == old(params)@[k]);
                assert(ps_pre[0] == (t.id, t.data@));
                assert(params@ =~= old(params)@.skip(k + 1));
                assert(param_seq(params@) =~= ps_pre.drop_first());
            }
            let u_opt = self.gradient(t.id, &t.data);
            match u_opt {
                Some(u) => {
                    sub_in_place(&mut t.data, &u);
                    out.push(t);
                    proof {
                        let id0 = old(params)@[k].id;
                        let p0 = old(params)@[k].data@;
                        let g = g_pre[id0];
                        let v0 = entry_or_zero(v_pre, id0, g.len());
                        let u_spec = update_value(cfg0, g, v0, p0);
                        let newp = Seq::new(u_spec.len(), |i: int| p0[i].sub_s(u_spec[i]));
                        assert(t.data@ =~= newp);
                        let step_pre = run_sgd(cfg0, g_pre, v_pre, ps_pre);
                        let rest = run_sgd(
                            cfg0,
                            self.gradients_view(),
                            self.velocity_view(),
                            ps_pre.drop_first(),
                        );
                        assert(step_pre.values == seq![newp] + rest.values);
                        assert(step_pre.unused == rest.unused);
                        assert forall|j: int|
                            0 <= j < rest.values.len() implies rest.values[j]
                            == target.values.skip(k + 1)[j] by {
                            assert((seq![newp] + rest.values)[j + 1] == rest.values[j]);
                            assert(step_pre.values[j + 1] == target.values.skip(k)[j + 1]);
                        }
                        assert(rest.values.len() == target.values.skip(k + 1).len());
                        assert(rest.values =~= target.values.skip(k + 1));
                        assert(t.data@ == (seq![newp] + rest.values)[0]);
                        assert(t.data@ == target.values.skip(k)[0]);
                        assert(t.data@ == target.values[k]);
                    }
                },
                None => {
                    unused_ids.push(t.id);
                    out.push(t);
                    proof {
                        let id0 = old(params)@[k].id;
                        let step_pre = run_sgd(cfg0, g_pre, v_pre, ps_pre);
                        let rest = run_sgd(
                            cfg0,
                            self.gradients_view(),
                            self.velocity_view(),
                            ps_pre.drop_first(),
                        );
                        assert(step_pre.values == seq![t.data@] + rest.values);
                        assert(step_pre.unused == seq![id0] + rest.unused);
                        assert forall|j: int|
                            0 <= j < rest.values.len() implies rest.values[j]
                            == target.values.skip(k + 1)[j] by {
                            assert((seq![t.data@] + rest.values)[j + 1] == rest.values[j]);
                            assert(step_pre.values[j + 1] == target.values.skip(k)[j + 1]);
                        }
                        assert(rest.values.len() == target.values.skip(k + 1).len());
                        assert(rest.values =~= target.values.skip(k + 1));
                        assert(t.data@ == (seq![t.data@] + rest.values)[0]);
                        assert(t.data@ == target.values.skip(k)[0]);
                        assert(t.data@ == target.values[k]);
                        assert forall|j: int|
                            0 <= j < rest.unused.len() implies rest.unused[j]
                            == target.unused.skip(ulen + 1)[j] by {
                            assert((seq![id0] + rest.unused)[j + 1] == rest.unused[j]);
                            assert(step_pre.unused[j + 1] == target.unused.skip(ulen)[j + 1]);
                        }
                        assert(rest.unused.len() == target.unused.skip(ulen + 1).len());
                        assert(rest.unused =~= target.unused.skip(ulen + 1));
                        assert(id0 == (seq![id0] + rest.unused)[0]);
                        assert(id0 == target.unused.skip(ulen)[0]);
                        assert(id0 == target.unused[ulen]);
                        assert(unused_ids@ =~= target.unused.take(ulen + 1));
                    }
                },
            }
        }
        proof {
            assert(param_seq(params@) =~= Seq::<(u64, Seq<E>)>::empty());
            let done = run_sgd(
                cfg0,
                self.gradients_view(),
                self.velocity_view(),
                param_seq(params@),
            );
            assert(done.unused == target.unused.skip(unused_ids@.len() as int));
            assert(done.unused.len() == 0);
            assert(target.unused.len() == unused_ids@.len());
            assert(unused_ids@ =~= target.unused);
        }
        *params = out;
        if unused_ids.len() == 0 {
            Ok(())
        } else {
            Err(UnusedParamsError { ids: unused_ids })
        }
    }
}

} // verus!
