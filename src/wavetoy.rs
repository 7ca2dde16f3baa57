//! Explicit time integration of the one-dimensional wave equation on a fixed
//! grid over [0, 1].
//!
//! The field is sampled at `n >= 2` equally spaced points; points `0` and
//! `n - 1` are the boundary, held fixed. Every rule of the scheme that is
//! about indices, lengths, boundaries and the order of stages is stated and
//! proved here. The library is generic over the scalar type: the few scalar
//! operations the scheme needs (`x + a * y`, the centred second difference,
//! and the constants zero, one and one half) are handed in by the caller as
//! an [`Ops`] value, and each contract says exactly which of those operations
//! produced each element of a result.
use vstd::prelude::*;

verus! {

/// A snapshot of the wave field: the simulation time, and at each grid point
/// the displacement `u` and its rate of change `udot`.
pub struct State<T> {
    pub time: T,
    pub u: Vec<T>,
    pub udot: Vec<T>,
}

impl<T> State<T> {
    /// Number of grid points.
    pub open spec fn npoints(&self) -> int {
        self.u.len() as int
    }

    /// Both fields cover the same grid, which has at least two points.
    pub open spec fn wf(&self) -> bool {
        &&& self.u.len() == self.udot.len()
        &&& self.u.len() >= 2
    }
}

/// Why a state could not be built.
#[derive(Debug, PartialEq, Eq, Structural)]
pub enum ConfigurationError {
    /// A grid needs at least two points to span the interval.
    GridTooSmall { n: usize },
}

/// `r[i]` is what `axpy` returns on `(u[i], a, v[i])`, at every index.
pub open spec fn is_combination<T, A: Fn(T, T, T) -> T>(
    u: Seq<T>,
    a: T,
    v: Seq<T>,
    r: Seq<T>,
    axpy: A,
) -> bool {
    &&& u.len() == v.len()
    &&& r.len() == u.len()
    &&& forall|i: int| 0 <= i < u.len() ==> axpy.ensures((u[i], a, v[i]), #[trigger] r[i])
}

/// `axpy` can be called on any three scalars.
pub open spec fn total_axpy<T, A: Fn(T, T, T) -> T>(axpy: A) -> bool {
    forall|x: T, a: T, y: T| #[trigger] axpy.requires((x, a, y))
}

/// Elementwise `u[i] + a * v[i]`, with the operation supplied as `axpy`.
pub fn vadd<T: Copy, A: Fn(T, T, T) -> T>(u: &Vec<T>, a: T, v: &Vec<T>, axpy: &A) -> (r: Vec<T>)
    requires
        u.len() == v.len(),
        total_axpy(*axpy),
    ensures
        is_combination(u@, a, v@, r@, *axpy),
{
    let n = u.len();
    let mut r: Vec<T> = Vec::new();
    let mut i: usize = 0;
    while i < n
        invariant
            n == u.len(),
            n == v.len(),
            i <= n,
            r.len() == i,
            total_axpy(*axpy),
            forall|j: int| 0 <= j < i ==> axpy.ensures((u@[j], a, v@[j]), #[trigger] r@[j]),
        decreases n - i,
    {
        let x = axpy(u[i], a, v[i]);
        r.push(x);
        i = i + 1;
    }
    r
}

/// The scalar operations the scheme is built from.
///
/// `axpy(x, a, y)` is `x + a * y`; `stencil(l, c, r)` is the centred second
/// difference `(r - 2 c + l) / dx^2` for the grid spacing `dx`; `zero`, `one`
/// and `half` are the constants 0, 1 and 1/2.
pub struct Ops<T, S, A> {
    pub zero: T,
    pub one: T,
    pub half: T,
    pub stencil: S,
    pub axpy: A,
}

impl<T, S: Fn(T, T, T) -> T, A: Fn(T, T, T) -> T> Ops<T, S, A> {
    /// Both operations can be called on any scalars.
    pub open spec fn wf(&self) -> bool {
        &&& total_axpy(self.axpy)
        &&& forall|l: T, c: T, r: T| #[trigger] self.stencil.requires((l, c, r))
    }
}

/// `d` is the time derivative of `s`: zero at both boundary points, and at
/// each interior point `d.u[i] == s.udot[i]` and `d.udot[i]` the second
/// difference of `u` around `i`. Its `time` is `one`, the rate at which time
/// itself advances; it is not a point in time.
pub open spec fn is_rhs<T, S: Fn(T, T, T) -> T, A: Fn(T, T, T) -> T>(
    s: State<T>,
    ops: Ops<T, S, A>,
    d: State<T>,
) -> bool {
    let n = s.npoints();
    &&& d.wf()
    &&& d.npoints() == n
    &&& d.time == ops.one
    &&& d.u@[0] == ops.zero
    &&& d.udot@[0] == ops.zero
    &&& d.u@[n - 1] == ops.zero
    &&& d.udot@[n - 1] == ops.zero
    &&& forall|i: int| 1 <= i < n - 1 ==> #[trigger] d.u@[i] == s.udot@[i]
    &&& forall|i: int|
        1 <= i < n - 1 ==> ops.stencil.ensures(
            (s.u@[i - 1], s.u@[i], s.u@[i + 1]),
            #[trigger] d.udot@[i],
        )
}

/// The time derivative of `s` under fixed (Dirichlet) boundary conditions:
/// the boundary rates are forced to zero, so both boundary points stay where
/// they are under integration. For a grid of two points every point is a
/// boundary point and the derivative is zero throughout.
pub fn rhs<T: Copy, S: Fn(T, T, T) -> T, A: Fn(T, T, T) -> T>(
    s: &State<T>,
    ops: &Ops<T, S, A>,
) -> (d: State<T>)
    requires
        s.wf(),
        ops.wf(),
    ensures
        is_rhs(*s, *ops, d),
{
    let n = s.u.len();
    let mut u: Vec<T> = Vec::new();
    let mut udot: Vec<T> = Vec::new();
    let mut i: usize = 0;
    while i < n
        invariant
            s.wf(),
            ops.wf(),
            n == s.u.len(),
            i <= n,
            u.len() == i,
            udot.len() == i,
            i > 0 ==> u@[0] == ops.zero && udot@[0] == ops.zero,
            forall|j: int| 1 <= j < i && j < n - 1 ==> #[trigger] u@[j] == s.udot@[j],
            forall|j: int|
                1 <= j < i && j < n - 1 ==> ops.stencil.ensures(
                    (s.u@[j - 1], s.u@[j], s.u@[j + 1]),
                    #[trigger] udot@[j],
                ),
            i == n ==> u@[n - 1] == ops.zero && udot@[n - 1] == ops.zero,
        decreases n - i,
    {
        if i == 0 || i == n - 1 {
            u.push(ops.zero);
            udot.push(ops.zero);
        } else {
            u.push(s.udot[i]);
            let d2 = (ops.stencil)(s.u[i - 1], s.u[i], s.u[i + 1]);
            udot.push(d2);
        }
        i = i + 1;
    }
    State { time: ops.one, u, udot }
}

/// `r` is `s + a * d`, field by field: the time and each element of `u` and
/// `udot` are what `axpy` returns on the matching values.
pub open spec fn is_sum<T, S: Fn(T, T, T) -> T, A: Fn(T, T, T) -> T>(
    s: State<T>,
    a: T,
    d: State<T>,
    ops: Ops<T, S, A>,
    r: State<T>,
) -> bool {
    &&& r.wf()
    &&& r.npoints() == s.npoints()
    &&& ops.axpy.ensures((s.time, a, d.time), r.time)
    &&& is_combination(s.u@, a, d.u@, r.u@, ops.axpy)
    &&& is_combination(s.udot@, a, d.udot@, r.udot@, ops.axpy)
}

/// `s + a * d`, for two states on the same grid.
pub fn add_state<T: Copy, S: Fn(T, T, T) -> T, A: Fn(T, T, T) -> T>(
    s: &State<T>,
    a: T,
    d: &State<T>,
    ops: &Ops<T, S, A>,
) -> (r: State<T>)
    requires
        s.wf(),
        d.wf(),
        d.npoints() == s.npoints(),
        ops.wf(),
    ensures
        is_sum(*s, a, *d, *ops, r),
{
    let time = (ops.axpy)(s.time, a, d.time);
    let u = vadd(&s.u, a, &d.u, &ops.axpy);
    let udot = vadd(&s.udot, a, &d.udot, &ops.axpy);
    State { time, u, udot }
}

/// The stages of one midpoint step from `s` by `dt` to `r`: the derivative
/// `k0` at `s`, the half step `h = zero + half * dt`, the predicted state
/// `mid = s + h * k0`, the derivative `k1` at `mid`, and `r = s + dt * k1`.
pub open spec fn midpoint_stages<T, S: Fn(T, T, T) -> T, A: Fn(T, T, T) -> T>(
    s: State<T>,
    dt: T,
    ops: Ops<T, S, A>,
    k0: State<T>,
    h: T,
    mid: State<T>,
    k1: State<T>,
    r: State<T>,
) -> bool {
    &&& is_rhs(s, ops, k0)
    &&& ops.axpy.ensures((ops.zero, ops.half, dt), h)
    &&& is_sum(s, h, k0, ops, mid)
    &&& is_rhs(mid, ops, k1)
    &&& is_sum(s, dt, k1, ops, r)
}

/// `r` is the result of one midpoint step from `s` by `dt`.
pub open spec fn is_step<T, S: Fn(T, T, T) -> T, A: Fn(T, T, T) -> T>(
    s: State<T>,
    dt: T,
    ops: Ops<T, S, A>,
    r: State<T>,
) -> bool {
    exists|k0: State<T>, h: T, mid: State<T>, k1: State<T>|
        #[trigger] midpoint_stages(s, dt, ops, k0, h, mid, k1, r)
}

/// Advances `s` by `dt` with the explicit two-stage midpoint scheme: a half
/// step along the derivative at `s` predicts the midpoint, and the full step
/// is taken from `s` along the derivative at that midpoint. Two derivative
/// evaluations per step; the scheme is of second order. Since the
/// derivative's `time` is `one`, the new time is `axpy(s.time, dt, one)`,
/// that is `s.time + dt`.
pub fn step<T: Copy, S: Fn(T, T, T) -> T, A: Fn(T, T, T) -> T>(
    s: &State<T>,
    dt: T,
    ops: &Ops<T, S, A>,
) -> (r: State<T>)
    requires
        s.wf(),
        ops.wf(),
    ensures
        is_step(*s, dt, *ops, r),
{
    let k0 = rhs(s, ops);
    let h = (ops.axpy)(ops.zero, ops.half, dt);
    let mid = add_state(s, h, &k0, ops);
    let k1 = rhs(&mid, ops);
    let r = add_state(s, dt, &k1, ops);
    assert(midpoint_stages(*s, dt, *ops, k0, h, mid, k1, r));
    r
}

/// The initial state at time `t` on a grid of `n` points: the point `i`
/// (at `x = i / (n - 1)`) gets the displacement and rate of change that
/// `profile(i)` returns, in that order.
///
/// Fails with `GridTooSmall` when `n < 2`, before `profile` is ever called.
pub fn init<T: Copy, P: Fn(usize) -> (T, T)>(t: T, n: usize, profile: &P) -> (r: Result<
    State<T>,
    ConfigurationError,
>)
    requires
        forall|i: usize| i < n ==> #[trigger] profile.requires((i,)),
    ensures
        r is Err <==> n < 2,
        r is Err ==> r->Err_0 == (ConfigurationError::GridTooSmall { n }),
        r is Ok ==> {
            let s = r->Ok_0;
            &&& s.wf()
            &&& s.npoints() == n
            &&& s.time == t
            &&& forall|i: int|
                0 <= i < n ==> profile.ensures((i as usize,), (#[trigger] s.u@[i], s.udot@[i]))
        },
{
    if n < 2 {
        return Err(ConfigurationError::GridTooSmall { n });
    }
    let mut u: Vec<T> = Vec::new();
    let mut udot: Vec<T> = Vec::new();
    let mut i: usize = 0;
    while i < n
        invariant
            forall|k: usize| k < n ==> #[trigger] profile.requires((k,)),
            i <= n,
            u.len() == i,
            udot.len() == i,
            forall|j: int| 0 <= j < i ==> profile.ensures((j as usize,), (#[trigger] u@[j], udot@[j])),
        decreases n - i,
    {
        let (ui, vi) = profile(i);
        u.push(ui);
        udot.push(vi);
        i = i + 1;
    }
    Ok(State { time: t, u, udot })
}

/// A combination with a zero scale gives back the first sequence, whenever
/// the scalar operation adds nothing for a zero scale.
pub proof fn lemma_combine_zero_scale<T, A: Fn(T, T, T) -> T>(
    u: Seq<T>,
    zero: T,
    v: Seq<T>,
    r: Seq<T>,
    axpy: A,
)
    requires
        is_combination(u, zero, v, r, axpy),
        forall|x: T, y: T, z: T| #[trigger] axpy.ensures((x, zero, y), z) ==> z == x,
    ensures
        r == u,
{
    assert(r =~= u);
}

/// `axpy(x, a, zero)` is `x`, for every `x` and `a`.
pub open spec fn absorbs_zero<T, S: Fn(T, T, T) -> T, A: Fn(T, T, T) -> T>(
    ops: Ops<T, S, A>,
) -> bool {
    forall|x: T, a: T, z: T| #[trigger] ops.axpy.ensures((x, a, ops.zero), z) ==> z == x
}

/// The boundary values hold at both ends of `s` and `r` alike.
pub open spec fn same_boundary<T>(s: State<T>, r: State<T>) -> bool {
    let n = s.npoints();
    &&& r.npoints() == n
    &&& r.u@[0] == s.u@[0]
    &&& r.udot@[0] == s.udot@[0]
    &&& r.u@[n - 1] == s.u@[n - 1]
    &&& r.udot@[n - 1] == s.udot@[n - 1]
}

/// One step leaves the grid size and both boundary points, displacement and
/// rate alike, unchanged.
pub proof fn lemma_step_keeps_boundary<T, S: Fn(T, T, T) -> T, A: Fn(T, T, T) -> T>(
    s: State<T>,
    dt: T,
    ops: Ops<T, S, A>,
    r: State<T>,
)
    requires
        s.wf(),
        absorbs_zero(ops),
        is_step(s, dt, ops, r),
    ensures
        r.wf(),
        same_boundary(s, r),
{
    let (k0, h, mid, k1) = choose|k0: State<T>, h: T, mid: State<T>, k1: State<T>|
        #[trigger] midpoint_stages(s, dt, ops, k0, h, mid, k1, r);
    let n = s.npoints();
    assert(ops.axpy.ensures((s.u@[0], dt, k1.u@[0]), r.u@[0]));
    assert(ops.axpy.ensures((s.udot@[0], dt, k1.udot@[0]), r.udot@[0]));
    assert(ops.axpy.ensures((s.u@[n - 1], dt, k1.u@[n - 1]), r.u@[n - 1]));
    assert(ops.axpy.ensures((s.udot@[n - 1], dt, k1.udot@[n - 1]), r.udot@[n - 1]));
}

/// Along any chain of steps, each state keeps the grid size and the boundary
/// values of the first: the ends of the field are frozen.
pub proof fn lemma_boundary_frozen<T, S: Fn(T, T, T) -> T, A: Fn(T, T, T) -> T>(
    states: Seq<State<T>>,
    dts: Seq<T>,
    ops: Ops<T, S, A>,
)
    requires
        states.len() >= 1,
        states[0].wf(),
        dts.len() + 1 == states.len(),
        absorbs_zero(ops),
        forall|k: int| 0 <= k < dts.len() ==> is_step(#[trigger] states[k], dts[k], ops, states[k + 1]),
    ensures
        forall|k: int| 0 <= k < states.len() ==> #[trigger] states[k].wf() && same_boundary(states[0], states[k]),
    decreases states.len(),
{
    if states.len() > 1 {
        let m = states.len() - 1;
        lemma_boundary_frozen(states.take(m), dts.take(m - 1), ops);
        assert(states.take(m)[m - 1] == states[m - 1]);
        assert(is_step(states[m - 1], dts[m - 1], ops, states[m]));
        lemma_step_keeps_boundary(states[m - 1], dts[m - 1], ops, states[m]);
        assert forall|k: int| 0 <= k < states.len() implies #[trigger] states[k].wf() && same_boundary(states[0], states[k]) by {
            if k < m {
                assert(states.take(m)[k] == states[k]);
            }
        }
    }
}

} // verus!
