//! The evolvable recurrent neural controller of one agent.
//!
//! A [`Brain`] owns an ordered sequence of [`Neuron`]s; a neuron is known only
//! by its position in that sequence. Each neuron carries a bias, its current
//! output, and an ordered list of incoming weighted connections
//! ([`NeuronInput`]). The first [`IMMUNE_NEURON_COUNT`] neurons are reserved
//! input/output channels and are never removed by mutation.

use vstd::prelude::*;
use crate::fixed::{
    FX_ONE, FX_LIM, fx_clip_s, fx_abs_s, fx_add_s, fx_sub_s, fx_mul_s, fx_clip, fx_add, fx_sub,
    fx_mul,
};
use crate::rng::{rand_fraction, rand_index, rand_weight};

verus! {

/// Number of reserved sensory/actuator neurons at the front of the sequence.
pub const IMMUNE_NEURON_COUNT: usize = 8;

/// A directed weighted edge into the owning neuron, from the neuron at
/// position `neuron_id` of the owning graph.
#[derive(Debug, Clone, Copy, PartialEq, Eq, Structural)]
pub struct NeuronInput {
    pub neuron_id: usize,
    pub weight: i64,
}

/// One neuron: bias, current output, and incoming connections.
#[derive(Debug)]
pub struct Neuron {
    pub bias: i64,
    pub output: i64,
    pub inputs: Vec<NeuronInput>,
}

/// The neural controller: an ordered sequence of neurons.
#[derive(Debug)]
pub struct Brain {
    pub neurons: Vec<Neuron>,
}

/// Every connection of `ins` points below `n`.
pub open spec fn inputs_wf(ins: Seq<NeuronInput>, n: int) -> bool {
    forall|j: int| 0 <= j < ins.len() ==> (#[trigger] ins[j]).neuron_id < n
}

/// Graph invariant: at least the immune neurons exist, and every connection
/// points at an existing neuron.
pub open spec fn neurons_wf(ns: Seq<Neuron>) -> bool {
    &&& ns.len() >= IMMUNE_NEURON_COUNT
    &&& forall|i: int| 0 <= i < ns.len() ==> inputs_wf((#[trigger] ns[i]).inputs@, ns.len() as int)
}

/// The saturating odd activation applied to a neuron's raw sum: a scalar `x`
/// is mapped to `x / (1 + |x|)`, which lies strictly inside `(-1, 1)`, is
/// zero at zero and monotone, like the usual sigmoid-shaped activations.
pub open spec fn act_s(x: int) -> int {
    let c = fx_clip_s(x);
    let m = fx_abs_s(c);
    let v = (m * (FX_ONE as int)) / ((FX_ONE as int) + m);
    if c < 0 {
        -v
    } else {
        v
    }
}

/// Raw input sum of neuron `n` over its first `k` connections, reading the
/// outputs of `ns` (the pre-tick state): the bias plus each connection's
/// weight times the source neuron's previous output, accumulated in order.
pub open spec fn raw_prefix(n: Neuron, ns: Seq<Neuron>, k: int) -> int
    decreases k,
{
    if k <= 0 {
        n.bias as int
    } else {
        fx_add_s(
            raw_prefix(n, ns, k - 1),
            fx_mul_s(ns[n.inputs@[k - 1].neuron_id as int].output as int, n.inputs@[k - 1].weight as int),
        )
    }
}

/// Full raw input sum of neuron `n` against pre-tick state `ns`.
pub open spec fn neuron_raw(n: Neuron, ns: Seq<Neuron>) -> int {
    raw_prefix(n, ns, n.inputs@.len() as int)
}

/// The output neuron `i` shows after one synchronous step of `ns`.
pub open spec fn tick_output(ns: Seq<Neuron>, i: int) -> int {
    act_s(neuron_raw(ns[i], ns))
}

/// Relates pre-tick state `a` to post-tick state `b`: same topology, same
/// biases, and every output computed from `a` alone — no neuron observes
/// another neuron's same-tick output, including through self-loops or cycles.
pub open spec fn tick_rel(a: Seq<Neuron>, b: Seq<Neuron>) -> bool {
    &&& b.len() == a.len()
    &&& forall|i: int| 0 <= i < a.len() ==> {
        &&& (#[trigger] b[i]).bias == a[i].bias
        &&& b[i].inputs@ == a[i].inputs@
        &&& b[i].output as int == tick_output(a, i)
    }
}

/// The whole state after one synchronous step of `ns`: biases and
/// connections kept, every output replaced by `tick_output` against `ns`.
pub open spec fn post_tick_s(ns: Seq<Neuron>) -> Seq<Neuron> {
    Seq::new(
        ns.len(),
        |i: int| Neuron { bias: ns[i].bias, output: tick_output(ns, i) as i64, inputs: ns[i].inputs },
    )
}

/// `ns` after setting the output of neuron `id`, if it exists.
pub open spec fn write_spec(ns: Seq<Neuron>, id: int, v: i64) -> Seq<Neuron> {
    if 0 <= id < ns.len() {
        ns.update(id, Neuron { bias: ns[id].bias, output: v, inputs: ns[id].inputs })
    } else {
        ns
    }
}

/// The output of neuron `id` of `ns`, if it exists.
pub open spec fn read_spec(ns: Seq<Neuron>, id: int) -> Option<i64> {
    if 0 <= id < ns.len() {
        Some(ns[id].output)
    } else {
        None
    }
}

/// A connection after neuron `idx` left the graph: sources above `idx` slide
/// down by one; sources at or below it are unchanged.
pub open spec fn shift_input(c: NeuronInput, idx: int) -> NeuronInput {
    if c.neuron_id > idx {
        NeuronInput { neuron_id: (c.neuron_id - 1) as usize, weight: c.weight }
    } else {
        c
    }
}

/// A connection list after neuron `idx` left the graph: connections from
/// `idx` are dropped, and every remaining source above `idx` slides down.
pub open spec fn reindex_inputs(ins: Seq<NeuronInput>, idx: int) -> Seq<NeuronInput>
    decreases ins.len(),
{
    if ins.len() == 0 {
        Seq::empty()
    } else {
        let rest = reindex_inputs(ins.drop_last(), idx);
        if ins.last().neuron_id == idx {
            rest
        } else {
            rest.push(shift_input(ins.last(), idx))
        }
    }
}

/// Total number of connections owned by the first `k` neurons.
pub open spec fn conn_total(ns: Seq<Neuron>, k: int) -> int
    decreases k,
{
    if k <= 0 {
        0
    } else {
        conn_total(ns, k - 1) + ns[k - 1].inputs@.len()
    }
}

/// Total number of connections owned by the first `k` neurons, saturating at
/// `usize::MAX` — what the executable count reports.
pub open spec fn conn_sat(ns: Seq<Neuron>, k: int) -> int
    decreases k,
{
    if k <= 0 {
        0
    } else {
        let p = conn_sat(ns, k - 1);
        if p + ns[k - 1].inputs@.len() > usize::MAX {
            usize::MAX as int
        } else {
            p + ns[k - 1].inputs@.len()
        }
    }
}

/// The connection total depends only on the lists' lengths.
proof fn lemma_conn_total_lens(a: Seq<Neuron>, b: Seq<Neuron>, k: int)
    requires
        k <= a.len(),
        k <= b.len(),
        forall|i: int| 0 <= i < k ==> (#[trigger] b[i]).inputs@.len() == a[i].inputs@.len(),
    ensures
        conn_total(a, k) == conn_total(b, k),
    decreases k,
{
    if k > 0 {
        lemma_conn_total_lens(a, b, k - 1);
    }
}

/// The saturating count never exceeds the true total and is zero only when
/// the true total is.
proof fn lemma_conn_sat_le(ns: Seq<Neuron>, k: int)
    ensures
        0 <= conn_sat(ns, k) <= conn_total(ns, k),
        conn_sat(ns, k) == 0 ==> conn_total(ns, k) == 0,
    decreases k,
{
    if k > 0 {
        lemma_conn_sat_le(ns, k - 1);
    }
}

/// `b` carries the same neurons as `a`: same biases, outputs and connection
/// lists; the deep-copy relation.
pub open spec fn neurons_equiv(a: Seq<Neuron>, b: Seq<Neuron>) -> bool {
    &&& b.len() == a.len()
    &&& forall|i: int| 0 <= i < a.len() ==> {
        &&& (#[trigger] b[i]).bias == a[i].bias
        &&& b[i].output == a[i].output
        &&& b[i].inputs@ == a[i].inputs@
    }
}

/// Neuron `tgt` of `b` is neuron `tgt` of `a` with one new incoming edge
/// from `src`, of weight `w`, appended to its connection list.
pub open spec fn gained_edge(a: Seq<Neuron>, b: Seq<Neuron>, tgt: int, src: int, w: i64) -> bool {
    b[tgt].inputs@ == a[tgt].inputs@.push(NeuronInput { neuron_id: src as usize, weight: w })
}

/// `e`-th fixed-point power of `b`, multiplied up from `1` in order.
pub open spec fn fx_pow_s(b: int, e: nat) -> int
    decreases e,
{
    if e == 0 {
        FX_ONE as int
    } else {
        fx_mul_s(fx_pow_s(b, (e - 1) as nat), b)
    }
}

/// Whole units of a scalar, rounding toward zero.
pub open spec fn fx_trunc_units_s(v: int) -> int {
    let c = fx_clip_s(v);
    if c < 0 {
        -((-c) / (FX_ONE as int))
    } else {
        c / (FX_ONE as int)
    }
}

/// `e`-th fixed-point power of `b`, exactly `fx_pow_s`.
pub fn fx_pow(b: i64, e: usize) -> (r: i64)
    ensures
        r == fx_pow_s(b as int, e as nat),
{
    let mut acc: i64 = FX_ONE;
    let mut k: usize = 0;
    while k < e
        invariant
            k <= e,
            acc as int == fx_pow_s(b as int, k as nat),
        decreases e - k,
    {
        acc = fx_mul(acc, b);
        k += 1;
    }
    acc
}

/// Whole units of a scalar, rounding toward zero; exactly `fx_trunc_units_s`,
/// and bounded by `FX_LIM / FX_ONE`.
pub fn fx_trunc_units(v: i64) -> (r: i64)
    ensures
        r == fx_trunc_units_s(v as int),
        -0x4000_0000 <= r <= 0x4000_0000,
{
    let c = fx_clip(v);
    if c < 0 {
        -((-c) / FX_ONE)
    } else {
        c / FX_ONE
    }
}

/// Scale applied to the uniform draw in the neuron-count delta (`2.22`).
pub const NEURON_FN_SCALE: i64 = 145490;

/// Shift subtracted in the neuron-count delta (`1.11`).
pub const NEURON_FN_SHIFT: i64 = 72745;

/// Exponent of the neuron-count delta: high and odd, so most draws land near
/// zero and rare draws near the ends produce a large jump.
pub const NEURON_FN_POWER: usize = 15;

/// Scale applied to the uniform draw in the connection-count delta (`2.38`).
pub const CONN_FN_SCALE: i64 = 155976;

/// Shift subtracted in the connection-count delta (`1.19`).
pub const CONN_FN_SHIFT: i64 = 77988;

/// Exponent of the connection-count delta.
pub const CONN_FN_POWER: usize = 7;

/// Scale applied to the uniform draw in the bias/weight perturbation (`2`).
pub const PERTURB_SCALE: i64 = 131072;

/// Shift subtracted in the bias/weight perturbation (`1`).
pub const PERTURB_SHIFT: i64 = 65536;

/// Exponent of the bias/weight perturbation.
pub const PERTURB_POWER: usize = 25;

/// Linear drift added to the bias/weight perturbation (`0.01`).
pub const PERTURB_DRIFT: i64 = 655;

/// Magnitude chain for the neuron-count draw: a base of magnitude at most
/// `72745` keeps its `15`-th fixed-point power below `313550`.
proof fn lemma_neuron_pow_bound(b: int)
    requires
        fx_abs_s(b) <= 72745,
    ensures
        fx_abs_s(fx_pow_s(b, 15)) <= 313550,
{
    assert(fx_abs_s(fx_pow_s(b, 0)) <= 65536);
    crate::fixed::lemma_fx_mul_mag(fx_pow_s(b, 0), b, 65536, 72745);
    assert(fx_abs_s(fx_pow_s(b, 1)) <= 72745);
    crate::fixed::lemma_fx_mul_mag(fx_pow_s(b, 1), b, 72745, 72745);
    assert(fx_abs_s(fx_pow_s(b, 2)) <= 80746);
    crate::fixed::lemma_fx_mul_mag(fx_pow_s(b, 2), b, 80746, 72745);
    assert(fx_abs_s(fx_pow_s(b, 3)) <= 89628);
    crate::fixed::lemma_fx_mul_mag(fx_pow_s(b, 3), b, 89628, 72745);
    assert(fx_abs_s(fx_pow_s(b, 4)) <= 99487);
    crate::fixed::lemma_fx_mul_mag(fx_pow_s(b, 4), b, 99487, 72745);
    assert(fx_abs_s(fx_pow_s(b, 5)) <= 110430);
    crate::fixed::lemma_fx_mul_mag(fx_pow_s(b, 5), b, 110430, 72745);
    assert(fx_abs_s(fx_pow_s(b, 6)) <= 122577);
    crate::fixed::lemma_fx_mul_mag(fx_pow_s(b, 6), b, 122577, 72745);
    assert(fx_abs_s(fx_pow_s(b, 7)) <= 136060);
    crate::fixed::lemma_fx_mul_mag(fx_pow_s(b, 7), b, 136060, 72745);
    assert(fx_abs_s(fx_pow_s(b, 8)) <= 151026);
    crate::fixed::lemma_fx_mul_mag(fx_pow_s(b, 8), b, 151026, 72745);
    assert(fx_abs_s(fx_pow_s(b, 9)) <= 167638);
    crate::fixed::lemma_fx_mul_mag(fx_pow_s(b, 9), b, 167638, 72745);
    assert(fx_abs_s(fx_pow_s(b, 10)) <= 186078);
    crate::fixed::lemma_fx_mul_mag(fx_pow_s(b, 10), b, 186078, 72745);
    assert(fx_abs_s(fx_pow_s(b, 11)) <= 206546);
    crate::fixed::lemma_fx_mul_mag(fx_pow_s(b, 11), b, 206546, 72745);
    assert(fx_abs_s(fx_pow_s(b, 12)) <= 229266);
    crate::fixed::lemma_fx_mul_mag(fx_pow_s(b, 12), b, 229266, 72745);
    assert(fx_abs_s(fx_pow_s(b, 13)) <= 254485);
    crate::fixed::lemma_fx_mul_mag(fx_pow_s(b, 13), b, 254485, 72745);
    assert(fx_abs_s(fx_pow_s(b, 14)) <= 282478);
    crate::fixed::lemma_fx_mul_mag(fx_pow_s(b, 14), b, 282478, 72745);
    assert(fx_abs_s(fx_pow_s(b, 15)) <= 313550);
}

/// Magnitude chain for the connection-count draw: a base of magnitude at most
/// `77988` keeps its `7`-th fixed-point power below `221465`.
proof fn lemma_conn_pow_bound(b: int)
    requires
        fx_abs_s(b) <= 77988,
    ensures
        fx_abs_s(fx_pow_s(b, 7)) <= 221465,
{
    assert(fx_abs_s(fx_pow_s(b, 0)) <= 65536);
    crate::fixed::lemma_fx_mul_mag(fx_pow_s(b, 0), b, 65536, 77988);
    assert(fx_abs_s(fx_pow_s(b, 1)) <= 77988);
    crate::fixed::lemma_fx_mul_mag(fx_pow_s(b, 1), b, 77988, 77988);
    assert(fx_abs_s(fx_pow_s(b, 2)) <= 92805);
    crate::fixed::lemma_fx_mul_mag(fx_pow_s(b, 2), b, 92805, 77988);
    assert(fx_abs_s(fx_pow_s(b, 3)) <= 110438);
    crate::fixed::lemma_fx_mul_mag(fx_pow_s(b, 3), b, 110438, 77988);
    assert(fx_abs_s(fx_pow_s(b, 4)) <= 131421);
    crate::fixed::lemma_fx_mul_mag(fx_pow_s(b, 4), b, 131421, 77988);
    assert(fx_abs_s(fx_pow_s(b, 5)) <= 156391);
    crate::fixed::lemma_fx_mul_mag(fx_pow_s(b, 5), b, 156391, 77988);
    assert(fx_abs_s(fx_pow_s(b, 6)) <= 186105);
    crate::fixed::lemma_fx_mul_mag(fx_pow_s(b, 6), b, 186105, 77988);
    assert(fx_abs_s(fx_pow_s(b, 7)) <= 221465);
}

/// Any fixed-point power of a scalar of magnitude at most one stays at
/// magnitude at most one.
proof fn lemma_fx_pow_unit(b: int, e: nat)
    requires
        fx_abs_s(b) <= FX_ONE,
    ensures
        fx_abs_s(fx_pow_s(b, e)) <= FX_ONE,
    decreases e,
{
    if e > 0 {
        lemma_fx_pow_unit(b, (e - 1) as nat);
        crate::fixed::lemma_fx_mul_mag(fx_pow_s(b, (e - 1) as nat), b, FX_ONE as int, FX_ONE as int);
    }
}

/// One heavy-tailed neuron-count draw: a uniform fixed-point fraction `x`
/// mapped through `(2.22 x - 1.11) ^ 15` and truncated to whole units. The
/// draw is random; whatever comes out lies in `[-4, 4]`.
fn neuron_count_delta() -> (d: i64)
    ensures
        -4 <= d <= 4,
{
    let x = rand_fraction();
    let base = fx_sub(fx_mul(x, NEURON_FN_SCALE), NEURON_FN_SHIFT);
    proof {
        crate::fixed::lemma_fx_mul_mag(x as int, NEURON_FN_SCALE as int, 65535, 145490);
        assert((65535int * 145490) / 65536 == 145487) by (nonlinear_arith);
        lemma_neuron_pow_bound(base as int);
    }
    let p = fx_pow(base, NEURON_FN_POWER);
    fx_trunc_units(p)
}

/// One heavy-tailed connection-count draw: a uniform fixed-point fraction `x`
/// mapped through `(2.38 x - 1.19) ^ 7` and truncated to whole units. The
/// draw is random; whatever comes out lies in `[-3, 3]`.
fn connection_count_delta() -> (d: i64)
    ensures
        -3 <= d <= 3,
{
    let x = rand_fraction();
    let base = fx_sub(fx_mul(x, CONN_FN_SCALE), CONN_FN_SHIFT);
    proof {
        crate::fixed::lemma_fx_mul_mag(x as int, CONN_FN_SCALE as int, 65535, 155976);
        assert((65535int * 155976) / 65536 == 155973) by (nonlinear_arith);
        lemma_conn_pow_bound(base as int);
    }
    let p = fx_pow(base, CONN_FN_POWER);
    fx_trunc_units(p)
}

/// The range every perturbation draw lands in: the heavy tail contributes at
/// most one unit either way, the linear drift at most `654` upward.
pub open spec fn perturb_range(d: int) -> bool {
    -(FX_ONE as int) <= d <= FX_ONE + 654
}

/// `nv` is `ov` plus one perturbation draw.
pub open spec fn perturbed(ov: int, nv: int) -> bool {
    exists|d: int| #[trigger] perturb_range(d) && d >= -(FX_ONE as int) && nv == fx_add_s(ov, d)
}

/// One heavy-tailed perturbation draw: `(2x - 1) ^ 25 + 0.01 x` for a uniform
/// fixed-point fraction `x`. The draw is random; whatever comes out lies in
/// the perturbation range.
fn perturb_draw() -> (d: i64)
    ensures
        perturb_range(d as int),
{
    let x = rand_fraction();
    let base = fx_sub(fx_mul(x, PERTURB_SCALE), PERTURB_SHIFT);
    proof {
        crate::fixed::lemma_fx_mul_mag(x as int, PERTURB_SCALE as int, 65535, 131072);
        assert((65535int * 131072) / 65536 == 131070) by (nonlinear_arith);
        lemma_fx_pow_unit(base as int, PERTURB_POWER as nat);
    }
    let tail = fx_pow(base, PERTURB_POWER);
    let drift = fx_mul(x, PERTURB_DRIFT);
    proof {
        crate::fixed::lemma_fx_mul_mag(x as int, PERTURB_DRIFT as int, 65535, 655);
        assert((65535int * 655) / 65536 == 654) by (nonlinear_arith);
    }
    fx_add(tail, drift)
}

/// An element-for-element copy of a connection list.
fn copy_inputs(v: &Vec<NeuronInput>) -> (r: Vec<NeuronInput>)
    ensures
        r@ == v@,
{
    let mut r: Vec<NeuronInput> = Vec::new();
    let mut i: usize = 0;
    while i < v.len()
        invariant
            i <= v@.len(),
            r@ == v@.take(i as int),
        decreases v@.len() - i,
    {
        proof {
            v@.lemma_take_succ_push(i as int);
        }
        r.push(v[i]);
        i += 1;
    }
    proof {
        v@.lemma_take_len();
    }
    r
}

/// The saturating activation function, exactly `act_s`; its result lies
/// strictly inside `(-FX_ONE, FX_ONE)`.
pub fn act(x: i64) -> (r: i64)
    ensures
        r == act_s(x as int),
        -FX_ONE < r < FX_ONE,
{
    let c = fx_clip(x);
    let m: u64 = if c < 0 {
        (-c) as u64
    } else {
        c as u64
    };
    let p: u128 = (m as u128) * (FX_ONE as u128);
    let q: u128 = p / ((FX_ONE as u128) + (m as u128));
    proof {
        assert((m as int) * (FX_ONE as int) / ((FX_ONE as int) + (m as int)) < FX_ONE as int)
            by (nonlinear_arith)
            requires
                m >= 0,
                FX_ONE == 65536,
        ;
    }
    let v = q as i64;
    if c < 0 {
        -v
    } else {
        v
    }
}

/// The reserved neurons' outputs of `b` are those of `a`.
pub open spec fn immune_outputs_preserved(a: Seq<Neuron>, b: Seq<Neuron>) -> bool {
    forall|i: int|
        0 <= i < IMMUNE_NEURON_COUNT ==> (#[trigger] b[i]).output == a[i].output
}

/// Reindexing a connection list keeps every source below `n - 1` when every
/// source was below `n`.
proof fn lemma_reindex_wf(ins: Seq<NeuronInput>, idx: int, n: int)
    requires
        inputs_wf(ins, n),
        0 <= idx < n,
    ensures
        inputs_wf(reindex_inputs(ins, idx), n - 1),
    decreases ins.len(),
{
    if ins.len() > 0 {
        lemma_reindex_wf(ins.drop_last(), idx, n);
    }
}

/// Unfolds `reindex_inputs` across a push.
proof fn lemma_reindex_push(ins: Seq<NeuronInput>, c: NeuronInput, idx: int)
    ensures
        reindex_inputs(ins.push(c), idx) == if c.neuron_id == idx {
            reindex_inputs(ins, idx)
        } else {
            reindex_inputs(ins, idx).push(shift_input(c, idx))
        },
{
    assert(ins.push(c).drop_last() =~= ins);
}

/// Updating one neuron shifts the connection total by the difference of that
/// neuron's connection counts.
proof fn lemma_conn_total_update(ns: Seq<Neuron>, i: int, n2: Neuron, k: int)
    requires
        0 <= i < ns.len(),
        i < k <= ns.len(),
    ensures
        conn_total(ns.update(i, n2), k) == conn_total(ns, k) - ns[i].inputs@.len()
            + n2.inputs@.len(),
    decreases k,
{
    if k - 1 > i {
        lemma_conn_total_update(ns, i, n2, k - 1);
    } else {
        assert(conn_total(ns.update(i, n2), k - 1) == conn_total(ns, k - 1)) by {
            lemma_conn_total_prefix_eq(ns, ns.update(i, n2), k - 1);
        }
    }
}

/// The connection total over a prefix depends only on that prefix.
proof fn lemma_conn_total_prefix_eq(a: Seq<Neuron>, b: Seq<Neuron>, k: int)
    requires
        k <= a.len(),
        k <= b.len(),
        forall|i: int| 0 <= i < k ==> a[i] == b[i],
    ensures
        conn_total(a, k) == conn_total(b, k),
    decreases k,
{
    if k > 0 {
        lemma_conn_total_prefix_eq(a, b, k - 1);
    }
}

impl Clone for Brain {
    /// A full deep copy: the clone carries the same neurons, independently
    /// owned, and is what reproduction hands to the child.
    fn clone(&self) -> (r: Self)
        ensures
            neurons_equiv(self.neurons@, r.neurons@),
    {
        let mut neurons: Vec<Neuron> = Vec::new();
        let mut i: usize = 0;
        while i < self.neurons.len()
            invariant
                i <= self.neurons@.len(),
                neurons@.len() == i,
                forall|k: int| 0 <= k < i ==> {
                    &&& (#[trigger] neurons@[k]).bias == self.neurons@[k].bias
                    &&& neurons@[k].output == self.neurons@[k].output
                    &&& neurons@[k].inputs@ == self.neurons@[k].inputs@
                },
            decreases self.neurons@.len() - i,
        {
            let inputs = copy_inputs(&self.neurons[i].inputs);
            neurons.push(
                Neuron { bias: self.neurons[i].bias, output: self.neurons[i].output, inputs },
            );
            i += 1;
        }
        Brain { neurons }
    }
}

impl Brain {
    /// The graph invariant as a predicate on the brain.
    pub open spec fn wf(&self) -> bool {
        neurons_wf(self.neurons@)
    }

    /// The neuron sequence, for specifications.
    pub open spec fn view_neurons(&self) -> Seq<Neuron> {
        self.neurons@
    }

    /// A fresh brain: exactly the immune neurons, all with zero bias, zero
    /// output and no connections.
    pub fn new() -> (r: Brain)
        ensures
            r.wf(),
            r.view_neurons().len() == IMMUNE_NEURON_COUNT,
            forall|i: int|
                0 <= i < IMMUNE_NEURON_COUNT ==> {
                    &&& (#[trigger] r.view_neurons()[i]).bias == 0
                    &&& r.view_neurons()[i].output == 0
                    &&& r.view_neurons()[i].inputs@.len() == 0
                },
    {
        let mut neurons: Vec<Neuron> = Vec::new();
        let mut k: usize = 0;
        while k < IMMUNE_NEURON_COUNT
            invariant
                k <= IMMUNE_NEURON_COUNT,
                neurons@.len() == k,
                forall|i: int|
                    0 <= i < k ==> {
                        &&& (#[trigger] neurons@[i]).bias == 0
                        &&& neurons@[i].output == 0
                        &&& neurons@[i].inputs@.len() == 0
                    },
            decreases IMMUNE_NEURON_COUNT - k,
        {
            neurons.push(Neuron { bias: 0, output: 0, inputs: Vec::new() });
            k += 1;
        }
        Brain { neurons }
    }

    /// The output of the neuron at `neuron_id`, or `None` if there is no such
    /// neuron — never an error.
    pub fn read_neuron(&self, neuron_id: usize) -> (r: Option<i64>)
        ensures
            r == read_spec(self.view_neurons(), neuron_id as int),
    {
        if neuron_id < self.neurons.len() {
            Some(self.neurons[neuron_id].output)
        } else {
            None
        }
    }

    /// Sets the output of the neuron at `neuron_id`; a no-op if there is no
    /// such neuron.
    pub fn write_neuron(&mut self, neuron_id: usize, value: i64)
        ensures
            final(self).view_neurons() == write_spec(old(self).view_neurons(), neuron_id as int, value),
    {
        if neuron_id < self.neurons.len() {
            self.neurons[neuron_id].output = value;
        }
    }

    /// The neuron sequence.
    pub fn neurons(&self) -> (r: &Vec<Neuron>)
        ensures
            r@ == self.view_neurons(),
    {
        &self.neurons
    }

    /// One synchronous evaluation step: every neuron's new output is the
    /// activation of its bias plus the weighted sum of its sources' previous
    /// outputs. All reads see the state before this tick; the new outputs are
    /// computed into a buffer and swapped in afterwards.
    pub fn tick(&mut self)
        requires
            old(self).wf(),
        ensures
            final(self).wf(),
            tick_rel(old(self).view_neurons(), final(self).view_neurons()),
            final(self).view_neurons() == post_tick_s(old(self).view_neurons()),
    {
        let ghost ns0 = self.neurons@;
        let n = self.neurons.len();
        let mut temp: Vec<i64> = Vec::new();
        let mut i: usize = 0;
        while i < n
            invariant
                self.neurons@ == ns0,
                neurons_wf(ns0),
                n == ns0.len(),
                i <= n,
                temp@.len() == i,
                forall|k: int| 0 <= k < i ==> (#[trigger] temp@[k]) as int == tick_output(ns0, k),
            decreases n - i,
        {
            let m = self.neurons[i].inputs.len();
            let mut acc = self.neurons[i].bias;
            let mut j: usize = 0;
            while j < m
                invariant
                    self.neurons@ == ns0,
                    neurons_wf(ns0),
                    n == ns0.len(),
                    i < n,
                    m == ns0[i as int].inputs@.len(),
                    j <= m,
                    acc as int == raw_prefix(ns0[i as int], ns0, j as int),
                decreases m - j,
            {
                let src = self.neurons[i].inputs[j].neuron_id;
                let w = self.neurons[i].inputs[j].weight;
                acc = fx_add(acc, fx_mul(self.neurons[src].output, w));
                j += 1;
            }
            temp.push(act(acc));
            i += 1;
        }
        let mut i: usize = 0;
        while i < n
            invariant
                self.neurons@.len() == n,
                n == ns0.len(),
                temp@.len() == n,
                i <= n,
                forall|k: int| 0 <= k < n ==> (#[trigger] temp@[k]) as int == tick_output(ns0, k),
                forall|k: int|
                    i <= k < n ==> (#[trigger] self.neurons@[k]) == ns0[k],
                forall|k: int|
                    0 <= k < i ==> {
                        &&& (#[trigger] self.neurons@[k]).bias == ns0[k].bias
                        &&& self.neurons@[k].inputs == ns0[k].inputs
                        &&& self.neurons@[k].output == temp@[k]
                    },
            decreases n - i,
        {
            self.neurons[i].output = temp[i];
            i += 1;
        }
        proof {
            assert(self.neurons@ =~= post_tick_s(ns0));
        }
    }

    /// Grows one neuron with zero bias and output, one incoming connection
    /// from a random existing neuron, and one outgoing connection into a
    /// random existing neuron, both with random weights.
    fn add_neuron(&mut self)
        requires
            old(self).wf(),
        ensures
            final(self).wf(),
            final(self).neurons@.len() == old(self).neurons@.len() + 1,
            forall|i: int|
                0 <= i < old(self).neurons@.len() ==> {
                    &&& (#[trigger] final(self).neurons@[i]).output == old(self).neurons@[i].output
                    &&& final(self).neurons@[i].bias == old(self).neurons@[i].bias
                },
            final(self).neurons@.last().bias == 0,
            final(self).neurons@.last().output == 0,
            final(self).neurons@.last().inputs@.len() == 1,
            final(self).neurons@.last().inputs@[0].neuron_id < old(self).neurons@.len(),
            -FX_ONE <= final(self).neurons@.last().inputs@[0].weight < FX_ONE,
            exists|tgt: int, w: i64|
                {
                    &&& 0 <= tgt < old(self).neurons@.len()
                    &&& -FX_ONE <= w < FX_ONE
                    &&& #[trigger] gained_edge(
                        old(self).neurons@,
                        final(self).neurons@,
                        tgt,
                        old(self).neurons@.len() as int,
                        w,
                    )
                    &&& forall|i: int|
                        0 <= i < old(self).neurons@.len() && i != tgt
                            ==> (#[trigger] final(self).neurons@[i]).inputs@ == old(
                            self,
                        ).neurons@[i].inputs@
                },
            conn_total(final(self).neurons@, final(self).neurons@.len() as int) == conn_total(
                old(self).neurons@,
                old(self).neurons@.len() as int,
            ) + 2,
    {
        let ghost ns0 = self.neurons@;
        let len = self.neurons.len();
        let src = rand_index(len);
        let w_in = rand_weight();
        let mut inputs: Vec<NeuronInput> = Vec::new();
        inputs.push(NeuronInput { neuron_id: src, weight: w_in });
        let tgt = rand_index(len);
        let w_out = rand_weight();
        self.neurons[tgt].inputs.push(NeuronInput { neuron_id: len, weight: w_out });
        let ghost mid = self.neurons@;
        self.neurons.push(Neuron { bias: 0, output: 0, inputs });
        proof {
            assert(gained_edge(ns0, self.neurons@, tgt as int, len as int, w_out));
            lemma_conn_total_update(ns0, tgt as int, mid[tgt as int], len as int);
            lemma_conn_total_prefix_eq(mid, self.neurons@, len as int);
        }
    }

    /// Removes the neuron at `idx`: drops every connection sourced at `idx`,
    /// slides every source above `idx` down by one, and removes the neuron.
    /// Immune neurons may not be removed.
    fn remove_neuron(&mut self, idx: usize)
        requires
            old(self).wf(),
            IMMUNE_NEURON_COUNT <= idx < old(self).neurons@.len(),
        ensures
            final(self).wf(),
            final(self).neurons@.len() == old(self).neurons@.len() - 1,
            forall|i: int|
                0 <= i < idx ==> {
                    &&& (#[trigger] final(self).neurons@[i]).output == old(self).neurons@[i].output
                    &&& final(self).neurons@[i].bias == old(self).neurons@[i].bias
                    &&& final(self).neurons@[i].inputs@ == reindex_inputs(
                        old(self).neurons@[i].inputs@,
                        idx as int,
                    )
                },
            forall|i: int|
                idx <= i < old(self).neurons@.len() - 1 ==> {
                    &&& (#[trigger] final(self).neurons@[i]).output == old(self).neurons@[i
                        + 1].output
                    &&& final(self).neurons@[i].bias == old(self).neurons@[i + 1].bias
                    &&& final(self).neurons@[i].inputs@ == reindex_inputs(
                        old(self).neurons@[i + 1].inputs@,
                        idx as int,
                    )
                },
    {
        let ghost ns0 = self.neurons@;
        let len = self.neurons.len();
        let mut i: usize = 0;
        while i < len
            invariant
                old(self).wf(),
                ns0 == old(self).neurons@,
                idx < len,
                len == ns0.len(),
                i <= len,
                self.neurons@.len() == len,
                forall|k: int|
                    0 <= k < i ==> {
                        &&& (#[trigger] self.neurons@[k]).output == ns0[k].output
                        &&& self.neurons@[k].bias == ns0[k].bias
                        &&& self.neurons@[k].inputs@ == reindex_inputs(ns0[k].inputs@, idx as int)
                    },
                forall|k: int| i <= k < len ==> (#[trigger] self.neurons@[k]) == ns0[k],
            decreases len - i,
        {
            let m = self.neurons[i].inputs.len();
            let ghost ins0 = self.neurons@[i as int].inputs@;
            let mut fresh: Vec<NeuronInput> = Vec::new();
            let mut j: usize = 0;
            while j < m
                invariant
                    j <= m,
                    i < self.neurons@.len(),
                    m == ins0.len(),
                    self.neurons@[i as int].inputs@ == ins0,
                    fresh@ == reindex_inputs(ins0.take(j as int), idx as int),
                decreases m - j,
            {
                let c = self.neurons[i].inputs[j];
                proof {
                    ins0.lemma_take_succ_push(j as int);
                    lemma_reindex_push(ins0.take(j as int), c, idx as int);
                }
                if c.neuron_id != idx {
                    if c.neuron_id > idx {
                        fresh.push(NeuronInput { neuron_id: c.neuron_id - 1, weight: c.weight });
                    } else {
                        fresh.push(c);
                    }
                }
                j += 1;
            }
            proof {
                ins0.lemma_take_len();
            }
            self.neurons[i].inputs = fresh;
            i += 1;
        }
        self.neurons.remove(idx);
        proof {
            assert forall|k: int| 0 <= k < self.neurons@.len() implies inputs_wf(
                (#[trigger] self.neurons@[k]).inputs@,
                self.neurons@.len() as int,
            ) by {
                let orig = if k < idx {
                    k
                } else {
                    k + 1
                };
                lemma_reindex_wf(ns0[orig].inputs@, idx as int, ns0.len() as int);
            }
        }
    }

    /// Adds one connection between two uniformly random neurons (self-loops
    /// and duplicate edges permitted) with a random weight.
    fn add_random_connection(&mut self)
        requires
            old(self).wf(),
        ensures
            final(self).wf(),
            final(self).neurons@.len() == old(self).neurons@.len(),
            forall|i: int|
                0 <= i < old(self).neurons@.len() ==> {
                    &&& (#[trigger] final(self).neurons@[i]).output == old(self).neurons@[i].output
                    &&& final(self).neurons@[i].bias == old(self).neurons@[i].bias
                },
            exists|from: int, to: int, w: i64|
                {
                    &&& 0 <= from < old(self).neurons@.len()
                    &&& 0 <= to < old(self).neurons@.len()
                    &&& -FX_ONE <= w < FX_ONE
                    &&& #[trigger] gained_edge(old(self).neurons@, final(self).neurons@, to, from, w)
                    &&& forall|i: int|
                        0 <= i < old(self).neurons@.len() && i != to
                            ==> (#[trigger] final(self).neurons@[i]).inputs@ == old(
                            self,
                        ).neurons@[i].inputs@
                },
            conn_total(final(self).neurons@, final(self).neurons@.len() as int) == conn_total(
                old(self).neurons@,
                old(self).neurons@.len() as int,
            ) + 1,
    {
        let ghost ns0 = self.neurons@;
        let len = self.neurons.len();
        let from = rand_index(len);
        let to = rand_index(len);
        let w = rand_weight();
        self.neurons[to].inputs.push(NeuronInput { neuron_id: from, weight: w });
        proof {
            assert(gained_edge(ns0, self.neurons@, to as int, from as int, w));
            lemma_conn_total_update(ns0, to as int, self.neurons@[to as int], len as int);
        }
    }

    /// Total number of connections in the graph, saturating at `usize::MAX`.
    pub fn count_connections(&self) -> (r: usize)
        ensures
            r == conn_sat(self.neurons@, self.neurons@.len() as int),
            r <= conn_total(self.neurons@, self.neurons@.len() as int),
            r == 0 ==> conn_total(self.neurons@, self.neurons@.len() as int) == 0,
    {
        let len = self.neurons.len();
        let mut acc: usize = 0;
        let mut i: usize = 0;
        while i < len
            invariant
                i <= len,
                len == self.neurons@.len(),
                acc == conn_sat(self.neurons@, i as int),
            decreases len - i,
        {
            let m = self.neurons[i].inputs.len();
            if m > usize::MAX - acc {
                acc = usize::MAX;
            } else {
                acc = acc + m;
            }
            i += 1;
        }
        proof {
            lemma_conn_sat_le(self.neurons@, len as int);
        }
        acc
    }

    /// Removes the connection with flattened ordinal `ord`, locating the
    /// owning neuron by cumulative count. Exactly one connection leaves; no
    /// neuron, output or bias changes.
    fn remove_connection_at(&mut self, ord: usize)
        requires
            old(self).wf(),
            ord < conn_total(old(self).neurons@, old(self).neurons@.len() as int),
        ensures
            final(self).wf(),
            final(self).neurons@.len() == old(self).neurons@.len(),
            conn_total(final(self).neurons@, final(self).neurons@.len() as int) == conn_total(
                old(self).neurons@,
                old(self).neurons@.len() as int,
            ) - 1,
            forall|i: int|
                0 <= i < old(self).neurons@.len() ==> {
                    &&& (#[trigger] final(self).neurons@[i]).output == old(self).neurons@[i].output
                    &&& final(self).neurons@[i].bias == old(self).neurons@[i].bias
                },
    {
        let ghost ns0 = self.neurons@;
        let len = self.neurons.len();
        let mut counted: usize = 0;
        let mut i: usize = 0;
        while i < len
            invariant
                old(self).wf(),
                self.neurons@ == ns0,
                ns0 == old(self).neurons@,
                len == ns0.len(),
                i <= len,
                counted == conn_total(ns0, i as int),
                counted <= ord,
                ord < conn_total(ns0, len as int),
            decreases len - i,
        {
            let m = self.neurons[i].inputs.len();
            if ord - counted < m {
                let p = ord - counted;
                self.neurons[i].inputs.remove(p);
                proof {
                    let n2 = self.neurons@[i as int];
                    assert(self.neurons@ =~= ns0.update(i as int, n2));
                    lemma_conn_total_update(ns0, i as int, n2, len as int);
                    assert forall|k: int| 0 <= k < self.neurons@.len() implies inputs_wf(
                        (#[trigger] self.neurons@[k]).inputs@,
                        self.neurons@.len() as int,
                    ) by {
                        if k == i {
                            assert(forall|q: int|
                                0 <= q < n2.inputs@.len() ==> (#[trigger] n2.inputs@[q])
                                    == if q < p {
                                    ns0[k].inputs@[q]
                                } else {
                                    ns0[k].inputs@[q + 1]
                                });
                        }
                    }
                }
                return ;
            }
            counted = counted + m;
            i += 1;
        }
        proof {
            assert(false);
        }
    }

    /// Adds an independent heavy-tailed draw to every bias and every weight;
    /// topology and outputs are untouched.
    fn perturb(&mut self)
        requires
            old(self).wf(),
        ensures
            final(self).wf(),
            final(self).neurons@.len() == old(self).neurons@.len(),
            forall|i: int|
                0 <= i < old(self).neurons@.len() ==> {
                    &&& (#[trigger] final(self).neurons@[i]).output == old(self).neurons@[i].output
                    &&& final(self).neurons@[i].inputs@.len() == old(self).neurons@[i].inputs@.len()
                    &&& forall|j: int|
                        0 <= j < old(self).neurons@[i].inputs@.len()
                            ==> (#[trigger] final(self).neurons@[i].inputs@[j]).neuron_id == old(
                            self,
                        ).neurons@[i].inputs@[j].neuron_id
                },
            forall|i: int|
                0 <= i < old(self).neurons@.len() ==> perturbed(
                    old(self).neurons@[i].bias as int,
                    (#[trigger] final(self).neurons@[i]).bias as int,
                ),
            forall|i: int, j: int|
                0 <= i < old(self).neurons@.len() && 0 <= j < old(self).neurons@[i].inputs@.len()
                    ==> perturbed(
                    old(self).neurons@[i].inputs@[j].weight as int,
                    (#[trigger] final(self).neurons@[i].inputs@[j]).weight as int,
                ),
    {
        let ghost ns0 = self.neurons@;
        let len = self.neurons.len();
        let mut i: usize = 0;
        while i < len
            invariant
                len == ns0.len(),
                self.neurons@.len() == len,
                i <= len,
                forall|k: int| i <= k < len ==> (#[trigger] self.neurons@[k]) == ns0[k],
                forall|k: int|
                    0 <= k < i ==> {
                        &&& (#[trigger] self.neurons@[k]).output == ns0[k].output
                        &&& self.neurons@[k].inputs@.len() == ns0[k].inputs@.len()
                        &&& forall|j: int|
                            0 <= j < ns0[k].inputs@.len()
                                ==> (#[trigger] self.neurons@[k].inputs@[j]).neuron_id
                                == ns0[k].inputs@[j].neuron_id
                    },
                forall|k: int|
                    0 <= k < i ==> perturbed(
                        ns0[k].bias as int,
                        (#[trigger] self.neurons@[k]).bias as int,
                    ),
                forall|k: int, j: int|
                    0 <= k < i && 0 <= j < ns0[k].inputs@.len() ==> perturbed(
                        ns0[k].inputs@[j].weight as int,
                        (#[trigger] self.neurons@[k].inputs@[j]).weight as int,
                    ),
            decreases len - i,
        {
            let d = perturb_draw();
            let b = self.neurons[i].bias;
            self.neurons[i].bias = fx_add(b, d);
            let m = self.neurons[i].inputs.len();
            let ghost mid = self.neurons@;
            proof {
                assert(mid[i as int].inputs@ == ns0[i as int].inputs@);
                assert(mid[i as int].bias as int == fx_add_s(ns0[i as int].bias as int, d as int));
                assert(perturbed(ns0[i as int].bias as int, mid[i as int].bias as int));
            }
            let mut j: usize = 0;
            while j < m
                invariant
                    i < mid.len(),
                    self.neurons@.len() == mid.len(),
                    m == mid[i as int].inputs@.len(),
                    j <= m,
                    forall|k: int|
                        0 <= k < mid.len() && k != i ==> (#[trigger] self.neurons@[k]) == mid[k],
                    self.neurons@[i as int].bias == mid[i as int].bias,
                    self.neurons@[i as int].output == mid[i as int].output,
                    self.neurons@[i as int].inputs@.len() == m,
                    forall|q: int|
                        0 <= q < m ==> (#[trigger] self.neurons@[i as int].inputs@[q]).neuron_id
                            == mid[i as int].inputs@[q].neuron_id,
                    forall|q: int|
                        j <= q < m ==> (#[trigger] self.neurons@[i as int].inputs@[q]).weight
                            == mid[i as int].inputs@[q].weight,
                    forall|q: int|
                        0 <= q < j ==> perturbed(
                            mid[i as int].inputs@[q].weight as int,
                            (#[trigger] self.neurons@[i as int].inputs@[q]).weight as int,
                        ),
                decreases m - j,
            {
                let d2 = perturb_draw();
                let w = self.neurons[i].inputs[j].weight;
                self.neurons[i].inputs[j].weight = fx_add(w, d2);
                proof {
                    assert(perturbed(
                        mid[i as int].inputs@[j as int].weight as int,
                        self.neurons@[i as int].inputs@[j as int].weight as int,
                    ));
                }
                j += 1;
            }
            i += 1;
        }
        proof {
            assert forall|k: int| 0 <= k < self.neurons@.len() implies inputs_wf(
                (#[trigger] self.neurons@[k]).inputs@,
                self.neurons@.len() as int,
            ) by {
                assert(inputs_wf(ns0[k].inputs@, ns0.len() as int));
            }
        }
    }

    /// One mutation pass, applied to a freshly cloned brain on reproduction:
    /// a heavy-tailed neuron-count delta (grow or shrink, immune neurons
    /// skipped), a heavy-tailed connection-count delta, and a perturbation of
    /// every bias and weight. Whatever is drawn: the graph invariant is
    /// preserved, the reserved neurons' outputs are untouched, the neuron
    /// count moves by at most the draw bound, neurons grown this pass start
    /// with output zero, and — whenever no neuron was removed — every
    /// pre-existing bias ends at its old value plus one perturbation draw.
    pub fn mutate(&mut self)
        requires
            old(self).wf(),
        ensures
            final(self).wf(),
            final(self).view_neurons().len() >= IMMUNE_NEURON_COUNT,
            immune_outputs_preserved(old(self).view_neurons(), final(self).view_neurons()),
            old(self).view_neurons().len() - 4 <= final(self).view_neurons().len(),
            final(self).view_neurons().len() <= old(self).view_neurons().len() + 4,
            final(self).view_neurons().len() > old(self).view_neurons().len() ==> forall|i: int|
                old(self).view_neurons().len() <= i < final(self).view_neurons().len()
                    ==> (#[trigger] final(self).view_neurons()[i]).output == 0,
            final(self).view_neurons().len() >= old(self).view_neurons().len() ==> forall|i: int|
                0 <= i < old(self).view_neurons().len() ==> perturbed(
                    old(self).view_neurons()[i].bias as int,
                    (#[trigger] final(self).view_neurons()[i]).bias as int,
                ),
            final(self).view_neurons().len() >= old(self).view_neurons().len() ==> {
                let base = conn_total(old(self).view_neurons(), old(self).view_neurons().len() as int)
                    + 2 * (final(self).view_neurons().len() - old(self).view_neurons().len());
                let grown = conn_total(
                    final(self).view_neurons(),
                    final(self).view_neurons().len() as int,
                );
                base - 3 <= grown <= base + 3
            },
    {
        let ghost orig = self.neurons@;
        let dn = neuron_count_delta();
        if dn >= 0 {
            let mut k: i64 = 0;
            while k < dn
                invariant
                    self.wf(),
                    immune_outputs_preserved(orig, self.neurons@),
                    0 <= k <= dn,
                    dn <= 4,
                    self.neurons@.len() == orig.len() + k,
                    conn_total(self.neurons@, self.neurons@.len() as int) == conn_total(
                        orig,
                        orig.len() as int,
                    ) + 2 * k,
                    forall|i: int|
                        0 <= i < orig.len() ==> (#[trigger] self.neurons@[i]).bias == orig[i].bias
                            && self.neurons@[i].output == orig[i].output,
                    forall|i: int|
                        orig.len() <= i < self.neurons@.len()
                            ==> (#[trigger] self.neurons@[i]).output == 0,
                decreases dn - k,
            {
                self.add_neuron();
                k += 1;
            }
        } else {
            let mut k: i64 = dn;
            while k < 0
                invariant
                    self.wf(),
                    immune_outputs_preserved(orig, self.neurons@),
                    -4 <= dn <= k <= 0,
                    orig.len() + dn - k <= self.neurons@.len(),
                    self.neurons@.len() <= orig.len(),
                    self.neurons@.len() == orig.len() ==> self.neurons@ == orig,
                decreases 0 - k,
            {
                let len = self.neurons.len();
                let idx = rand_index(len);
                if idx >= IMMUNE_NEURON_COUNT {
                    self.remove_neuron(idx);
                }
                k += 1;
            }
        }
        let ghost mid = self.neurons@;
        proof {
            assert(orig.len() - 4 <= mid.len() <= orig.len() + 4);
            assert(mid.len() >= orig.len() ==> forall|i: int|
                0 <= i < orig.len() ==> (#[trigger] mid[i]).bias == orig[i].bias);
            assert(mid.len() > orig.len() ==> forall|i: int|
                orig.len() <= i < mid.len() ==> (#[trigger] mid[i]).output == 0);
            assert(mid.len() >= orig.len() ==> conn_total(mid, mid.len() as int) == conn_total(
                orig,
                orig.len() as int,
            ) + 2 * (mid.len() - orig.len()));
        }
        let ghost mid_conn = conn_total(mid, mid.len() as int);
        let dc = connection_count_delta();
        if dc >= 0 {
            let mut k: i64 = 0;
            while k < dc
                invariant
                    self.wf(),
                    immune_outputs_preserved(orig, self.neurons@),
                    0 <= k <= dc,
                    dc <= 3,
                    self.neurons@.len() == mid.len(),
                    mid_conn == conn_total(mid, mid.len() as int),
                    conn_total(self.neurons@, self.neurons@.len() as int) == mid_conn + k,
                    forall|i: int|
                        0 <= i < mid.len() ==> (#[trigger] self.neurons@[i]).bias == mid[i].bias
                            && self.neurons@[i].output == mid[i].output,
                decreases dc - k,
            {
                self.add_random_connection();
                k += 1;
            }
        } else {
            let mut k: i64 = dc;
            while k < 0
                invariant
                    self.wf(),
                    immune_outputs_preserved(orig, self.neurons@),
                    -3 <= dc <= k <= 0,
                    self.neurons@.len() == mid.len(),
                    mid_conn == conn_total(mid, mid.len() as int),
                    mid_conn + dc - k <= conn_total(self.neurons@, self.neurons@.len() as int),
                    conn_total(self.neurons@, self.neurons@.len() as int) <= mid_conn,
                    forall|i: int|
                        0 <= i < mid.len() ==> (#[trigger] self.neurons@[i]).bias == mid[i].bias
                            && self.neurons@[i].output == mid[i].output,
                decreases 0 - k,
            {
                let total = self.count_connections();
                if total > 0 {
                    let ord = rand_index(total);
                    self.remove_connection_at(ord);
                }
                k += 1;
            }
        }
        let ghost pre = self.neurons@;
        self.perturb();
        proof {
            lemma_conn_total_lens(pre, self.neurons@, pre.len() as int);
            assert(self.neurons@.len() == orig.len() ==> self.neurons@.len() >= orig.len());
            if self.neurons@.len() >= orig.len() {
                assert forall|i: int| 0 <= i < orig.len() implies perturbed(
                    orig[i].bias as int,
                    (#[trigger] self.neurons@[i]).bias as int,
                ) by {
                    assert(pre[i].bias == orig[i].bias);
                    assert(perturbed(pre[i].bias as int, self.neurons@[i].bias as int));
                }
            }
            if self.neurons@.len() > orig.len() {
                assert forall|i: int|
                    orig.len() <= i < self.neurons@.len() implies (#[trigger] self.neurons@[i]).output
                    == 0 by {
                    assert(self.neurons@[i].output == pre[i].output);
                    assert(pre[i].output == mid[i].output);
                }
            }
        }
    }

    /// The brain's neurons as plain `(bias, output)` pairs, in order, for an
    /// external serializer.
    pub fn export_neurons(&self) -> (r: Vec<(i64, i64)>)
        ensures
            r@.len() == self.view_neurons().len(),
            forall|i: int|
                0 <= i < r@.len() ==> (#[trigger] r@[i]).0 == self.view_neurons()[i].bias && r@[i].1
                    == self.view_neurons()[i].output,
    {
        let mut r: Vec<(i64, i64)> = Vec::new();
        let mut i: usize = 0;
        while i < self.neurons.len()
            invariant
                i <= self.neurons@.len(),
                r@.len() == i,
                forall|k: int|
                    0 <= k < i ==> (#[trigger] r@[k]).0 == self.neurons@[k].bias && r@[k].1
                        == self.neurons@[k].output,
            decreases self.neurons@.len() - i,
        {
            r.push((self.neurons[i].bias, self.neurons[i].output));
            i += 1;
        }
        r
    }

    /// The brain's connections as plain `(source_index, weight)` pairs, one
    /// ordered list per neuron, in neuron order, for an external serializer.
    pub fn export_connections(&self) -> (r: Vec<Vec<(usize, i64)>>)
        ensures
            r@.len() == self.view_neurons().len(),
            forall|i: int, j: int|
                0 <= i < r@.len() && 0 <= j < r@[i]@.len() ==> (#[trigger] r@[i]@[j]).0
                    == self.view_neurons()[i].inputs@[j].neuron_id && r@[i]@[j].1
                    == self.view_neurons()[i].inputs@[j].weight,
            forall|i: int|
                0 <= i < r@.len() ==> (#[trigger] r@[i]@).len()
                    == self.view_neurons()[i].inputs@.len(),
    {
        let mut r: Vec<Vec<(usize, i64)>> = Vec::new();
        let mut i: usize = 0;
        while i < self.neurons.len()
            invariant
                i <= self.neurons@.len(),
                r@.len() == i,
                forall|k: int, j: int|
                    0 <= k < i && 0 <= j < r@[k]@.len() ==> (#[trigger] r@[k]@[j]).0
                        == self.neurons@[k].inputs@[j].neuron_id && r@[k]@[j].1
                        == self.neurons@[k].inputs@[j].weight,
                forall|k: int|
                    0 <= k < i ==> (#[trigger] r@[k]@).len() == self.neurons@[k].inputs@.len(),
            decreases self.neurons@.len() - i,
        {
            let m = self.neurons[i].inputs.len();
            let mut row: Vec<(usize, i64)> = Vec::new();
            let mut j: usize = 0;
            while j < m
                invariant
                    j <= m,
                    i < self.neurons@.len(),
                    m == self.neurons@[i as int].inputs@.len(),
                    row@.len() == j,
                    forall|q: int|
                        0 <= q < j ==> (#[trigger] row@[q]).0
                            == self.neurons@[i as int].inputs@[q].neuron_id && row@[q].1
                            == self.neurons@[i as int].inputs@[q].weight,
                decreases m - j,
            {
                let c = self.neurons[i].inputs[j];
                row.push((c.neuron_id, c.weight));
                j += 1;
            }
            r.push(row);
            i += 1;
        }
        r
    }

    /// Rebuilds a brain from exported `(bias, output)` pairs and per-neuron
    /// `(source_index, weight)` lists. Succeeds exactly when the two lists
    /// have the same length, at least the immune neurons are present, and
    /// every source index points at an existing neuron; the result then
    /// carries exactly the given data.
    pub fn import(neurons: &Vec<(i64, i64)>, connections: &Vec<Vec<(usize, i64)>>) -> (r: Option<
        Brain,
    >)
        ensures
            r is Some <==> {
                &&& neurons@.len() == connections@.len()
                &&& neurons@.len() >= IMMUNE_NEURON_COUNT
                &&& forall|i: int, j: int|
                    0 <= i < connections@.len() && 0 <= j < connections@[i]@.len()
                        ==> (#[trigger] connections@[i]@[j]).0 < neurons@.len()
            },
            r is Some ==> {
                &&& r->Some_0.wf()
                &&& r->Some_0.view_neurons().len() == neurons@.len()
                &&& forall|i: int|
                    0 <= i < neurons@.len() ==> {
                        &&& (#[trigger] r->Some_0.view_neurons()[i]).bias == neurons@[i].0
                        &&& r->Some_0.view_neurons()[i].output == neurons@[i].1
                        &&& r->Some_0.view_neurons()[i].inputs@.len() == connections@[i]@.len()
                        &&& forall|j: int|
                            0 <= j < connections@[i]@.len() ==> {
                                &&& (#[trigger] r->Some_0.view_neurons()[i].inputs@[j]).neuron_id
                                    == connections@[i]@[j].0
                                &&& r->Some_0.view_neurons()[i].inputs@[j].weight
                                    == connections@[i]@[j].1
                            }
                    }
            },
    {
        let n = neurons.len();
        if connections.len() != n || n < IMMUNE_NEURON_COUNT {
            return None;
        }
        let mut built: Vec<Neuron> = Vec::new();
        let mut i: usize = 0;
        while i < n
            invariant
                i <= n,
                n == neurons@.len(),
                n == connections@.len(),
                built@.len() == i,
                forall|k: int|
                    0 <= k < i ==> {
                        &&& (#[trigger] built@[k]).bias == neurons@[k].0
                        &&& built@[k].output == neurons@[k].1
                        &&& built@[k].inputs@.len() == connections@[k]@.len()
                        &&& forall|j: int|
                            0 <= j < connections@[k]@.len() ==> {
                                &&& (#[trigger] built@[k].inputs@[j]).neuron_id
                                    == connections@[k]@[j].0
                                &&& built@[k].inputs@[j].weight == connections@[k]@[j].1
                                &&& built@[k].inputs@[j].neuron_id < n
                            }
                    },
            decreases n - i,
        {
            let m = connections[i].len();
            let mut ins: Vec<NeuronInput> = Vec::new();
            let mut j: usize = 0;
            while j < m
                invariant
                    j <= m,
                    i < connections@.len(),
                    n == neurons@.len(),
                    m == connections@[i as int]@.len(),
                    ins@.len() == j,
                    forall|q: int|
                        0 <= q < j ==> {
                            &&& (#[trigger] ins@[q]).neuron_id == connections@[i as int]@[q].0
                            &&& ins@[q].weight == connections@[i as int]@[q].1
                            &&& ins@[q].neuron_id < n
                        },
                decreases m - j,
            {
                let (src, w) = connections[i][j];
                if src >= n {
                    return None;
                }
                ins.push(NeuronInput { neuron_id: src, weight: w });
                j += 1;
            }
            let (bias, output) = neurons[i];
            built.push(Neuron { bias, output, inputs: ins });
            i += 1;
        }
        proof {
            assert forall|a: int, b: int|
                0 <= a < connections@.len() && 0 <= b
                    < connections@[a]@.len() implies (#[trigger] connections@[a]@[b]).0
                < neurons@.len() by {
                assert(built@[a].inputs@[b].neuron_id == connections@[a]@[b].0);
                assert(built@[a].inputs@[b].neuron_id < n);
            }
        }
        Some(Brain { neurons: built })
    }
}

/// Writing a neuron's output and reading the same position yields exactly the
/// written value; an out-of-range read yields nothing, and an out-of-range
/// write changes nothing.
pub proof fn lemma_write_then_read(ns: Seq<Neuron>, id: int, v: i64)
    ensures
        0 <= id < ns.len() ==> read_spec(write_spec(ns, id, v), id) == Some(v),
        !(0 <= id < ns.len()) ==> read_spec(ns, id) is None && write_spec(ns, id, v) == ns,
{
}

/// A neuron with a single incoming connection shows, after a tick, exactly
/// the activation of its bias plus the connection's weight times the source
/// neuron's pre-tick output — in a two-neuron cycle, each neuron's new output
/// is computed from the other's old output, never its new one.
pub proof fn lemma_single_input_output(ns: Seq<Neuron>, i: int)
    requires
        0 <= i < ns.len(),
        ns[i].inputs@.len() == 1,
    ensures
        tick_output(ns, i) == act_s(
            fx_add_s(
                ns[i].bias as int,
                fx_mul_s(
                    ns[ns[i].inputs@[0].neuron_id as int].output as int,
                    ns[i].inputs@[0].weight as int,
                ),
            ),
        ),
{
    assert(raw_prefix(ns[i], ns, 0) == ns[i].bias as int);
}

/// A graph with zero biases and no connections is a fixed point of `tick`:
/// after any tick, every output is zero — and the post state satisfies the
/// same hypotheses, so this holds over arbitrarily many ticks.
pub proof fn lemma_no_connections_fixed_point(pre: Seq<Neuron>, post: Seq<Neuron>)
    requires
        tick_rel(pre, post),
        forall|i: int|
            0 <= i < pre.len() ==> (#[trigger] pre[i]).inputs@.len() == 0 && pre[i].bias == 0,
    ensures
        forall|i: int| 0 <= i < post.len() ==> (#[trigger] post[i]).output == 0,
        forall|i: int|
            0 <= i < post.len() ==> (#[trigger] post[i]).inputs@.len() == 0 && post[i].bias == 0,
{
    assert forall|i: int| 0 <= i < post.len() implies (#[trigger] post[i]).output == 0 by {
        assert(neuron_raw(pre[i], pre) == 0);
        assert(act_s(0) == 0);
    }
}

} // verus!
