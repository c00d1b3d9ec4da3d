//! Fixed-height append-only Merkle accumulator.
//!
//! Leaves are field elements (the leaf hash is the identity); inner nodes
//! join their children with a Poseidon hash of arity two.  The root is
//! specified as a pure function of the leaves inserted so far, a membership
//! path carries exactly [`HEIGHT`] sibling digests, and the path verifier —
//! written once against [`Specification`] — recomputes a candidate root in
//! either execution mode.

use vstd::prelude::*;
use vstd::arithmetic::power2::{pow2, lemma_pow2_adds, lemma_pow2_pos};
use crate::field::{Fp, fp_vals, fp_all_wf};
use crate::compiler::{Native, NativeCompiler, Specification, optv};
use crate::poseidon::{Hasher, all_bin, all_bound, all_in, all_wf, seq_vals};

verus! {

/// Height of every tree, path and circuit instance.
pub const HEIGHT: usize = 20;

/// The join of two child digests: a Poseidon hash of arity two.
pub open spec fn join_f(h: Hasher, lhs: nat, rhs: nat) -> nat {
    h.hash_f(seq![lhs, rhs])
}

/// The digest of the node at `lvl` levels above the leaves, at index `idx`
/// within that level, over the padded leaf sequence: an absent leaf is the
/// zero element.
pub open spec fn node_f(h: Hasher, leaves: Seq<nat>, lvl: int, idx: int) -> nat
    decreases lvl,
{
    if lvl <= 0 {
        if 0 <= idx < leaves.len() {
            leaves[idx]
        } else {
            0
        }
    } else {
        join_f(h, node_f(h, leaves, lvl - 1, 2 * idx), node_f(h, leaves, lvl - 1, 2 * idx + 1))
    }
}

/// The root of the whole tree over the given leaves.
pub open spec fn root_f(h: Hasher, leaves: Seq<nat>) -> nat {
    node_f(h, leaves, HEIGHT as int, 0)
}

/// The digest of a node all of whose leaves are absent.
pub open spec fn default_node_f(h: Hasher, lvl: int) -> nat
    decreases lvl,
{
    if lvl <= 0 {
        0
    } else {
        join_f(h, default_node_f(h, lvl - 1), default_node_f(h, lvl - 1))
    }
}

/// Folding a leaf digest up a path: at each level the current digest is
/// joined with the next sibling, on the side given by the position's parity
/// at that level.
pub open spec fn fold_path_f(h: Hasher, cur: nat, idx: int, sibs: Seq<nat>) -> nat
    decreases sibs.len(),
{
    if sibs.len() == 0 {
        cur
    } else {
        let next = if idx % 2 == 0 {
            join_f(h, cur, sibs[0])
        } else {
            join_f(h, sibs[0], cur)
        };
        fold_path_f(h, next, idx / 2, sibs.drop_first())
    }
}

/// A membership path: the leaf's position and the sibling digest at each
/// of the [`HEIGHT`] levels, innermost first.
#[derive(Clone, Debug)]
pub struct Path {
    pub leaf_index: u64,
    pub siblings: Vec<Fp>,
}

impl Path {
    /// The sibling digest values, innermost first.
    pub open spec fn sib_vals(&self) -> Seq<nat> {
        fp_vals(self.siblings@)
    }

    /// A path has exactly one sibling per level and a position inside the
    /// tree.
    pub open spec fn wf(&self) -> bool {
        &&& self.siblings@.len() == HEIGHT
        &&& fp_all_wf(self.siblings@)
        &&& (self.leaf_index as nat) < pow2(HEIGHT as nat)
    }

    /// Number of sibling entries carried by the path.
    pub fn len(&self) -> (r: usize)
        ensures
            r == self.siblings@.len(),
    {
        self.siblings.len()
    }
}

/// Joins two digests with the inner-node hash, natively.
pub fn join(parameters: &Hasher, lhs: &Fp, rhs: &Fp) -> (r: Fp)
    requires
        parameters.wf(),
        parameters.arity == 2,
        lhs.wf(),
        rhs.wf(),
    ensures
        r.wf(),
        r@ == join_f(*parameters, lhs@, rhs@),
{
    let mut compiler = NativeCompiler;
    let mut input: Vec<Fp> = Vec::new();
    input.push(*lhs);
    input.push(*rhs);
    proof {
        assert(all_wf::<Native>(input@));
        assert(all_bound::<Native>(input@));
        assert(seq_vals::<Native>(input@) =~= seq![lhs@, rhs@]);
    }
    parameters.hash::<Native>(&mut compiler, &input)
}

/// The append-only accumulator: a fixed-height binary hash tree holding
/// the leaves inserted so far, together with every computed inner node and
/// the per-level digests of untouched (all-absent) subtrees.
pub struct Accumulator {
    pub parameters: Hasher,
    pub leaves: Vec<Fp>,
    pub nodes: Vec<Vec<Fp>>,
    pub defaults: Vec<Fp>,
}

/// Number of stored nodes at a level above `n` leaves: one per node whose
/// subtree holds at least one present leaf.
pub open spec fn touched(n: int, lvl: int) -> int {
    if n == 0 {
        0
    } else {
        (n - 1) / pow2(lvl as nat) as int + 1
    }
}

impl Accumulator {
    /// The values of the leaves inserted so far, in insertion order.
    pub open spec fn leaf_vals(&self) -> Seq<nat> {
        fp_vals(self.leaves@)
    }

    /// The root digest of the current tree.
    pub open spec fn root_val(&self) -> nat {
        root_f(self.parameters, self.leaf_vals())
    }

    /// Structural invariant: the inner-node cache holds, level by level,
    /// exactly the digests of the touched nodes of the tree over the
    /// current leaves, and `defaults` the digests of untouched subtrees.
    pub open spec fn wf(&self) -> bool {
        &&& self.parameters.wf()
        &&& self.parameters.arity == 2
        &&& fp_all_wf(self.leaves@)
        &&& self.leaves@.len() <= pow2(HEIGHT as nat)
        &&& self.defaults@.len() == HEIGHT + 1
        &&& forall|l: int|
            0 <= l <= HEIGHT ==> (#[trigger] self.defaults@[l])@ == default_node_f(
                self.parameters,
                l,
            ) && self.defaults@[l].wf()
        &&& self.nodes@.len() == HEIGHT + 1
        &&& forall|l: int|
            1 <= l <= HEIGHT ==> (#[trigger] self.nodes@[l])@.len() == touched(
                self.leaves@.len() as int,
                l,
            )
        &&& forall|l: int, i: int|
            1 <= l <= HEIGHT && 0 <= i < self.nodes@[l]@.len() ==> (
            #[trigger] self.nodes@[l]@[i])@ == node_f(self.parameters, self.leaf_vals(), l, i)
                && self.nodes@[l]@[i].wf()
    }

    /// Creates an empty accumulator from an arity-two parameter set.
    pub fn new(parameters: Hasher) -> (r: Accumulator)
        requires
            parameters.wf(),
            parameters.arity == 2,
        ensures
            r.wf(),
            r.parameters == parameters,
            r.leaf_vals() =~= Seq::<nat>::empty(),
    {
        let mut defaults: Vec<Fp> = Vec::new();
        defaults.push(Fp::zero());
        let mut l: usize = 1;
        while l <= HEIGHT
            invariant
                parameters.wf(),
                parameters.arity == 2,
                1 <= l <= HEIGHT + 1,
                defaults@.len() == l,
                forall|m: int|
                    0 <= m < l ==> (#[trigger] defaults@[m])@ == default_node_f(parameters, m)
                        && defaults@[m].wf(),
            decreases HEIGHT + 1 - l,
        {
            let prev = defaults[l - 1];
            let d = join(&parameters, &prev, &prev);
            defaults.push(d);
            l = l + 1;
        }
        let mut nodes: Vec<Vec<Fp>> = Vec::new();
        let mut m: usize = 0;
        while m <= HEIGHT
            invariant
                m <= HEIGHT + 1,
                nodes@.len() == m,
                forall|k: int| 0 <= k < m ==> (#[trigger] nodes@[k])@.len() == 0,
            decreases HEIGHT + 1 - m,
        {
            nodes.push(Vec::new());
            m = m + 1;
        }
        Accumulator { parameters, leaves: Vec::new(), nodes, defaults }
    }

    /// Number of leaves inserted so far.
    pub fn len(&self) -> (r: usize)
        ensures
            r == self.leaves@.len(),
    {
        self.leaves.len()
    }

    /// The current root: a pure function of the leaves inserted so far.
    pub fn root(&self) -> (r: Fp)
        requires
            self.wf(),
        ensures
            r.wf(),
            r@ == self.root_val(),
    {
        let top = &self.nodes[HEIGHT];
        if top.len() > 0 {
            proof {
                lemma_pow2_pos(HEIGHT as nat);
                assert(touched(self.leaves@.len() as int, HEIGHT as int) == 1) by {
                    vstd::arithmetic::div_mod::lemma_basic_div(
                        self.leaves@.len() - 1,
                        pow2(HEIGHT as nat) as int,
                    );
                }
            }
            self.nodes[HEIGHT][0]
        } else {
            proof {
                assert(self.leaves@.len() == 0);
                lemma_empty_subtree(self.parameters, self.leaf_vals(), HEIGHT as int, 0);
                lemma_pow2_pos(HEIGHT as nat);
            }
            self.defaults[HEIGHT]
        }
    }
}

/// A node over a subtree that holds no present leaf has the default
/// digest of its level.
pub proof fn lemma_empty_subtree(h: Hasher, leaves: Seq<nat>, lvl: int, idx: int)
    requires
        lvl >= 0,
        idx >= 0,
        idx * pow2(lvl as nat) >= leaves.len(),
    ensures
        node_f(h, leaves, lvl, idx) == default_node_f(h, lvl),
    decreases lvl,
{
    if lvl == 0 {
        assert(pow2(0) == 1) by {
            vstd::arithmetic::power2::lemma2_to64();
        }
    } else {
        lemma_pow2_adds((lvl - 1) as nat, 1);
        assert(pow2(1) == 2) by {
            vstd::arithmetic::power2::lemma2_to64();
        }
        assert((2 * idx) * pow2((lvl - 1) as nat) == idx * pow2(lvl as nat)) by (nonlinear_arith)
            requires
                pow2(lvl as nat) == pow2((lvl - 1) as nat) * 2,
        ;
        assert((2 * idx + 1) * pow2((lvl - 1) as nat) >= idx * pow2(lvl as nat))
            by (nonlinear_arith)
            requires
                pow2(lvl as nat) == pow2((lvl - 1) as nat) * 2,
                idx >= 0,
                pow2((lvl - 1) as nat) >= 0,
        ;
        lemma_empty_subtree(h, leaves, lvl - 1, 2 * idx);
        lemma_empty_subtree(h, leaves, lvl - 1, 2 * idx + 1);
    }
}

/// Appending a leaf leaves every node whose subtree lay wholly inside the
/// old leaves unchanged.
pub proof fn lemma_node_append(h: Hasher, leaves: Seq<nat>, v: nat, lvl: int, idx: int)
    requires
        lvl >= 0,
        idx >= 0,
        (idx + 1) * pow2(lvl as nat) <= leaves.len(),
    ensures
        node_f(h, leaves.push(v), lvl, idx) == node_f(h, leaves, lvl, idx),
    decreases lvl,
{
    if lvl == 0 {
        assert(pow2(0) == 1) by {
            vstd::arithmetic::power2::lemma2_to64();
        }
    } else {
        lemma_pow2_adds((lvl - 1) as nat, 1);
        assert(pow2(1) == 2) by {
            vstd::arithmetic::power2::lemma2_to64();
        }
        assert((2 * idx + 1) * pow2((lvl - 1) as nat) <= (idx + 1) * pow2(lvl as nat)
            && (2 * idx + 2) * pow2((lvl - 1) as nat) == (idx + 1) * pow2(lvl as nat))
            by (nonlinear_arith)
            requires
                pow2(lvl as nat) == pow2((lvl - 1) as nat) * 2,
                idx >= 0,
                pow2((lvl - 1) as nat) >= 0,
        ;
        lemma_node_append(h, leaves, v, lvl - 1, 2 * idx);
        lemma_node_append(h, leaves, v, lvl - 1, 2 * idx + 1);
    }
}


/// Taking one off a positive number moves its quotient down by at most one.
proof fn lemma_pred_div(x: int, d: int)
    requires
        x >= 1,
        d >= 1,
    ensures
        x / d - 1 <= (x - 1) / d <= x / d,
{
    vstd::arithmetic::div_mod::lemma_fundamental_div_mod(x, d);
    vstd::arithmetic::div_mod::lemma_fundamental_div_mod(x - 1, d);
    vstd::arithmetic::div_mod::lemma_mod_bound(x, d);
    vstd::arithmetic::div_mod::lemma_mod_bound(x - 1, d);
    let q = x / d;
    let r = x % d;
    let q1 = (x - 1) / d;
    let r1 = (x - 1) % d;
    assert(q - 1 <= q1 <= q) by (nonlinear_arith)
        requires
            x == d * q + r,
            x - 1 == d * q1 + r1,
            0 <= r < d,
            0 <= r1 < d,
            d >= 1,
    ;
}

/// Halving the quotient by 2^(l-1) gives the quotient by 2^l.
proof fn lemma_div_step(pos: int, l: int)
    requires
        pos >= 0,
        l >= 1,
    ensures
        (pos / pow2((l - 1) as nat) as int) / 2 == pos / pow2(l as nat) as int,
{
    lemma_pow2_adds((l - 1) as nat, 1);
    assert(pow2(1) == 2) by {
        vstd::arithmetic::power2::lemma2_to64();
    }
    lemma_pow2_pos((l - 1) as nat);
    vstd::arithmetic::div_mod::lemma_div_denominator(pos, pow2((l - 1) as nat) as int, 2);
}

/// The multiple of `d` after `pos / d` lies strictly beyond `pos`.
proof fn lemma_next_multiple(pos: int, d: int)
    requires
        pos >= 0,
        d >= 1,
    ensures
        (pos / d + 1) * d > pos,
{
    vstd::arithmetic::div_mod::lemma_fundamental_div_mod(pos, d);
    vstd::arithmetic::div_mod::lemma_mod_bound(pos, d);
    let q = pos / d;
    let r = pos % d;
    assert((q + 1) * d > pos) by (nonlinear_arith)
        requires
            pos == d * q + r,
            0 <= r < d,
    ;
}

/// The accumulator already holds 2^HEIGHT leaves.
#[derive(Clone, Copy, Debug, PartialEq, Eq, Structural)]
pub struct AccumulatorFull;

impl Accumulator {
    /// Appends a leaf digest at the next free position and updates every
    /// ancestor digest, or reports that the tree is at capacity.
    pub fn insert(&mut self, leaf: Fp) -> (r: Result<(), AccumulatorFull>)
        requires
            old(self).wf(),
            leaf.wf(),
        ensures
            final(self).wf(),
            final(self).parameters == old(self).parameters,
            old(self).leaves@.len() >= pow2(HEIGHT as nat) ==> r is Err && *final(self) == *old(
                self,
            ),
            old(self).leaves@.len() < pow2(HEIGHT as nat) ==> r is Ok && final(self).leaves@
                == old(self).leaves@.push(leaf),
    {
        proof {
            vstd::arithmetic::power2::lemma2_to64();
            assert(pow2(20) == 0x100000);
        }
        let pos = self.leaves.len();
        if pos >= 0x100000 {
            return Err(AccumulatorFull);
        }
        let ghost old_vals = self.leaf_vals();
        self.leaves.push(leaf);
        let ghost new_vals = self.leaf_vals();
        proof {
            assert(new_vals =~= old_vals.push(leaf@));
        }
        let mut cur: usize = pos;
        let mut l: usize = 1;
        proof {
            assert(pow2(0) == 1) by {
                vstd::arithmetic::power2::lemma2_to64();
            }
            vstd::arithmetic::div_mod::lemma_div_basics(pos as int);
        }
        while l <= HEIGHT
            invariant
                1 <= l <= HEIGHT + 1,
                self.parameters == old(self).parameters,
                self.parameters.wf(),
                self.parameters.arity == 2,
                self.defaults == old(self).defaults,
                self.defaults@.len() == HEIGHT + 1,
                forall|m: int|
                    0 <= m <= HEIGHT ==> (#[trigger] self.defaults@[m])@ == default_node_f(
                        self.parameters,
                        m,
                    ) && self.defaults@[m].wf(),
                self.leaves@ == old(self).leaves@.push(leaf),
                self.leaves@.len() == pos + 1,
                pos < pow2(HEIGHT as nat),
                fp_all_wf(self.leaves@),
                old_vals == fp_vals(old(self).leaves@),
                old_vals.len() == pos,
                new_vals == self.leaf_vals(),
                self.nodes@.len() == HEIGHT + 1,
                cur == pos as int / pow2((l - 1) as nat) as int,
                forall|m: int|
                    1 <= m < l ==> (#[trigger] self.nodes@[m])@.len() == pos as int / pow2(
                        m as nat,
                    ) as int + 1,
                forall|m: int, i: int|
                    1 <= m < l && 0 <= i < self.nodes@[m]@.len() ==> (
                    #[trigger] self.nodes@[m]@[i])@ == node_f(self.parameters, new_vals, m, i)
                        && self.nodes@[m]@[i].wf(),
                forall|m: int|
                    l <= m <= HEIGHT ==> (#[trigger] self.nodes@[m])@.len() == touched(
                        pos as int,
                        m,
                    ),
                forall|m: int, i: int|
                    l <= m <= HEIGHT && 0 <= i < self.nodes@[m]@.len() ==> (
                    #[trigger] self.nodes@[m]@[i])@ == node_f(self.parameters, old_vals, m, i)
                        && self.nodes@[m]@[i].wf(),
            decreases HEIGHT + 1 - l,
        {
            let ghost params = self.parameters;
            proof {
                lemma_pow2_pos((l - 1) as nat);
                lemma_pow2_pos(l as nat);
                assert(pow2(0) == 1) by {
                    vstd::arithmetic::power2::lemma2_to64();
                }
                vstd::arithmetic::div_mod::lemma_div_basics(pos as int);
            }
            let p = cur / 2;
            let li = 2 * p;
            let ri = li + 1;
            proof {
                lemma_div_step(pos as int, l as int);
                assert(p == pos as int / pow2(l as nat) as int);
                assert(li <= cur);
            }
            // The left child is always among the stored nodes (or leaves).
            let left = if l == 1 {
                self.leaves[li]
            } else {
                proof {
                    assert(li < self.nodes@[l - 1]@.len());
                }
                self.nodes[l - 1][li]
            };
            proof {
                if l == 1 {
                    assert(left@ == node_f(params, new_vals, 0, li as int));
                }
            }
            // The right child may be an untouched subtree.
            let right = if l == 1 {
                if ri < self.leaves.len() {
                    self.leaves[ri]
                } else {
                    proof {
                        assert(pow2(0) == 1) by {
                            vstd::arithmetic::power2::lemma2_to64();
                        }
                        assert(new_vals.len() == pos + 1);
                        assert(ri as int * pow2(0) as int == ri as int) by (nonlinear_arith)
                            requires
                                pow2(0) == 1,
                        ;
                        assert(ri as int * pow2(0) as int >= new_vals.len());
                        lemma_empty_subtree(params, new_vals, 0, ri as int);
                    }
                    self.defaults[0]
                }
            } else {
                if ri < self.nodes[l - 1].len() {
                    self.nodes[l - 1][ri]
                } else {
                    proof {
                        assert(ri == cur + 1);
                        lemma_next_multiple(pos as int, pow2((l - 1) as nat) as int);
                        assert(ri as int * pow2((l - 1) as nat) as int >= new_vals.len())
                            by (nonlinear_arith)
                            requires
                                ri == cur + 1,
                                cur == pos as int / pow2((l - 1) as nat) as int,
                                (pos as int / pow2((l - 1) as nat) as int + 1) * pow2(
                                    (l - 1) as nat,
                                ) as int > pos,
                                new_vals.len() == pos + 1,
                        ;
                        lemma_empty_subtree(params, new_vals, l - 1, ri as int);
                    }
                    self.defaults[l - 1]
                }
            };
            proof {
                assert(left@ == node_f(params, new_vals, l - 1, li as int));
                assert(right@ == node_f(params, new_vals, l - 1, ri as int));
            }
            let node = join(&self.parameters, &left, &right);
            proof {
                vstd::arithmetic::div_mod::lemma_fundamental_div_mod(
                    pos as int,
                    pow2(l as nat) as int,
                );
                vstd::arithmetic::div_mod::lemma_mod_bound(pos as int, pow2(l as nat) as int);
                assert(li as int == 2 * (p as int) && ri as int == 2 * (p as int) + 1);
                assert(node@ == node_f(params, new_vals, l as int, p as int));
                assert(p as int * pow2(l as nat) as int <= pos) by (nonlinear_arith)
                    requires
                        p == pos as int / pow2(l as nat) as int,
                        pow2(l as nat) as int >= 1,
                        pos >= 0,
                        pos as int == pow2(l as nat) as int * (pos as int / pow2(
                            l as nat,
                        ) as int) + pos as int % pow2(l as nat) as int,
                        pos as int % pow2(l as nat) as int >= 0,
                ;
                assert(new_vals =~= old_vals.push(leaf@));
                // Entries below the updated one keep their digests under the
                // appended leaf.
                assert forall|i: int| 0 <= i < p implies node_f(params, old_vals, l as int, i)
                    == node_f(params, new_vals, l as int, i) by {
                    assert((i + 1) * pow2(l as nat) as int <= pos) by (nonlinear_arith)
                        requires
                            0 <= i,
                            i + 1 <= p,
                            p == pos as int / pow2(l as nat) as int,
                            pow2(l as nat) as int >= 1,
                            p * pow2(l as nat) as int <= pos,
                    ;
                    lemma_node_append(params, old_vals, leaf@, l as int, i);
                }
            }
            // Store the recomputed ancestor: the level either grows by one
            // node or replaces its last one.
            let ghost nodes_before = self.nodes@;
            let level = &mut self.nodes[l];
            proof {
                if pos > 0 {
                    lemma_pred_div(pos as int, pow2(l as nat) as int);
                }
            }
            if level.len() == p {
                level.push(node);
            } else {
                level.pop();
                level.push(node);
            }
            proof {
                assert(self.nodes@ == nodes_before.update(l as int, self.nodes@[l as int]));
                assert(self.nodes@[l as int]@.len() == p + 1);
                assert forall|i: int| 0 <= i < p + 1 implies (#[trigger] self.nodes@[
                    l as int]@[i])@ == node_f(params, new_vals, l as int, i) && self.nodes@[
                    l as int]@[i].wf() by {
                    if i < p {
                        assert(self.nodes@[l as int]@[i] == nodes_before[l as int]@[i]);
                        assert(nodes_before[l as int]@[i]@ == node_f(params, old_vals, l as int, i));
                    } else {
                        assert(self.nodes@[l as int]@[i] == node);
                    }
                }
            }
            cur = p;
            l = l + 1;
        }
        proof {
            assert forall|m: int| 1 <= m <= HEIGHT implies (#[trigger] self.nodes@[m])@.len()
                == touched(pos as int + 1, m) by {
                assert(self.nodes@[m]@.len() == pos as int / pow2(m as nat) as int + 1);
            }
            assert(self.wf());
        }
        Ok(())
    }
}


/// The index of the other child of a node's parent.
pub open spec fn sib_of(k: int) -> int {
    if k % 2 == 0 {
        k + 1
    } else {
        k - 1
    }
}

/// Division bounds: a quotient of a bounded non-negative number stays in
/// range.
proof fn lemma_div_bounds(x: int, d: int)
    requires
        x >= 0,
        d >= 1,
    ensures
        0 <= x / d <= x,
{
    vstd::arithmetic::div_mod::lemma_fundamental_div_mod(x, d);
    vstd::arithmetic::div_mod::lemma_mod_bound(x, d);
    let q = x / d;
    let r = x % d;
    assert(0 <= q <= x) by (nonlinear_arith)
        requires
            x == d * q + r,
            0 <= r < d,
            d >= 1,
            x >= 0,
    ;
}

/// Folding a node's digest up `n` levels against the digests of the
/// siblings along the way reaches the ancestor node `n` levels up.
pub proof fn lemma_fold_to_node(h: Hasher, leaves: Seq<nat>, lvl: int, idx: int, sibs: Seq<nat>)
    requires
        lvl >= 0,
        idx >= 0,
        forall|j: int|
            0 <= j < sibs.len() ==> #[trigger] sibs[j] == node_f(
                h,
                leaves,
                lvl + j,
                sib_of(idx / pow2(j as nat) as int),
            ),
    ensures
        fold_path_f(h, node_f(h, leaves, lvl, idx), idx, sibs) == node_f(
            h,
            leaves,
            lvl + sibs.len(),
            idx / pow2(sibs.len()) as int,
        ),
    decreases sibs.len(),
{
    vstd::arithmetic::power2::lemma2_to64();
    vstd::arithmetic::div_mod::lemma_div_basics(idx);
    if sibs.len() > 0 {
        let n = sibs.len() as int;
        vstd::arithmetic::div_mod::lemma_fundamental_div_mod(idx, 2);
        vstd::arithmetic::div_mod::lemma_mod_bound(idx, 2);
        assert(sibs[0] == node_f(h, leaves, lvl, sib_of(idx)));
        let next = if idx % 2 == 0 {
            join_f(h, node_f(h, leaves, lvl, idx), sibs[0])
        } else {
            join_f(h, sibs[0], node_f(h, leaves, lvl, idx))
        };
        if idx % 2 == 0 {
            assert(2 * (idx / 2) == idx);
            assert(next == node_f(h, leaves, lvl + 1, idx / 2));
        } else {
            assert(2 * (idx / 2) == idx - 1);
            assert(next == node_f(h, leaves, lvl + 1, idx / 2));
        }
        lemma_div_bounds(idx, 2);
        assert forall|j: int| 0 <= j < sibs.len() - 1 implies #[trigger] sibs.drop_first()[j]
            == node_f(h, leaves, lvl + 1 + j, sib_of((idx / 2) / pow2(j as nat) as int)) by {
            lemma_pow2_pos(j as nat);
            vstd::arithmetic::div_mod::lemma_div_denominator(idx, 2, pow2(j as nat) as int);
            lemma_pow2_adds(1, j as nat);
            assert((idx / 2) / pow2(j as nat) as int == idx / pow2((j + 1) as nat) as int);
            assert(sibs.drop_first()[j] == sibs[j + 1]);
        }
        lemma_fold_to_node(h, leaves, lvl + 1, idx / 2, sibs.drop_first());
        lemma_pow2_pos((n - 1) as nat);
        vstd::arithmetic::div_mod::lemma_div_denominator(idx, 2, pow2((n - 1) as nat) as int);
        lemma_pow2_adds(1, (n - 1) as nat);
        assert((idx / 2) / pow2((n - 1) as nat) as int == idx / pow2(n as nat) as int);
    }
}

/// The booleans are bound to the binary digits of `idx`, least first.
pub open spec fn bits_bound<S: Specification>(bits: Seq<S::Bool>, idx: int) -> bool {
    forall|l: int|
        0 <= l < bits.len() ==> #[trigger] S::bval(&bits[l]) == Some(
            idx / pow2(l as nat) as int % 2 == 1,
        )
}

/// Recomputes a candidate root from a leaf digest, the path's direction
/// booleans and the sibling digests, in the given backend.  In a circuit
/// backend the booleans and siblings are witness wires; natively they are
/// the position's bits and the stored digests.
pub fn root_from_path<S: Specification>(
    h: &Hasher,
    compiler: &mut S::Compiler,
    leaf: &S::Field,
    bits: &Vec<S::Bool>,
    siblings: &Vec<S::Field>,
    idx: Ghost<int>,
) -> (r: S::Field)
    requires
        h.wf(),
        h.arity == 2,
        S::fwf(leaf),
        all_wf::<S>(siblings@),
        bits@.len() == siblings@.len(),
        idx@ >= 0,
        S::fmode(leaf) == S::cmode(old(compiler)),
        !S::cmode(old(compiler)) ==> S::fval(leaf) is Some,
        all_in::<S>(S::cmode(old(compiler)), siblings@),
        all_bin::<S>(S::cmode(old(compiler)), bits@),
    ensures
        S::fwf(&r),
        S::fval(leaf) is Some && all_bound::<S>(siblings@) && bits_bound::<S>(bits@, idx@)
            ==> S::fval(&r) == Some(
            fold_path_f(*h, optv(S::fval(leaf)), idx@, seq_vals::<S>(siblings@)),
        ),
        S::cmode(final(compiler)) == S::cmode(old(compiler)),
        S::fmode(&r) == S::cmode(old(compiler)),
        !S::cmode(old(compiler)) ==> S::fval(&r) is Some,
{
    let ghost cm = S::cmode(compiler);
    let ghost full = seq_vals::<S>(siblings@);
    let ghost hyp = S::fval(leaf) is Some && all_bound::<S>(siblings@) && bits_bound::<S>(
        bits@,
        idx@,
    );
    let mut cur = S::dup(compiler, leaf);
    let n = siblings.len();
    let mut l: usize = 0;
    proof {
        vstd::arithmetic::power2::lemma2_to64();
        vstd::arithmetic::div_mod::lemma_div_basics(idx@);
        assert(full.skip(0) =~= full);
    }
    while l < n
        invariant
            h.wf(),
            h.arity == 2,
            S::fwf(leaf),
            all_wf::<S>(siblings@),
            bits@.len() == siblings@.len(),
            idx@ >= 0,
            n == siblings@.len(),
            0 <= l <= n,
            S::fwf(&cur),
            S::cmode(compiler) == cm,
            S::fmode(&cur) == cm,
            !cm ==> S::fval(&cur) is Some,
            all_in::<S>(cm, siblings@),
            all_bin::<S>(cm, bits@),
            full == seq_vals::<S>(siblings@),
            hyp == (S::fval(leaf) is Some && all_bound::<S>(siblings@) && bits_bound::<S>(
                bits@,
                idx@,
            )),
            hyp ==> S::fval(&cur) is Some && fold_path_f(*h, optv(S::fval(leaf)), idx@, full)
                == fold_path_f(*h, optv(S::fval(&cur)), idx@ / pow2(l as nat) as int, full.skip(
                l as int,
            )),
        decreases n - l,
    {
        proof {
            lemma_pow2_pos(l as nat);
        }
        proof {
            assert(S::bmode(&bits@[l as int]) == cm && (!cm ==> S::bval(&bits@[l as int])
                is Some));
            assert(S::fmode(&siblings@[l as int]) == cm && (!cm ==> S::fval(
                &siblings@[l as int],
            ) is Some));
        }
        let (a, b) = S::swap(compiler, &bits[l], &cur, &siblings[l]);
        let mut input: Vec<S::Field> = Vec::new();
        input.push(a);
        input.push(b);
        proof {
            assert(all_wf::<S>(input@));
            assert(all_in::<S>(cm, input@));
        }
        let next = h.hash::<S>(compiler, &input);
        proof {
            if hyp {
                let idxl = idx@ / pow2(l as nat) as int;
                let curv = optv(S::fval(&cur));
                let sibv = full[l as int];
                assert(S::fval(&siblings@[l as int]) is Some);
                assert(sibv == optv(S::fval(&siblings@[l as int])));
                assert(S::bval(&bits@[l as int]) == Some(idxl % 2 == 1));
                assert(all_bound::<S>(input@));
                assert(seq_vals::<S>(input@) =~= if idxl % 2 == 1 {
                    seq![sibv, curv]
                } else {
                    seq![curv, sibv]
                });
                assert(S::fval(&next) == Some(
                    if idxl % 2 == 1 {
                        join_f(*h, sibv, curv)
                    } else {
                        join_f(*h, curv, sibv)
                    },
                ));
                assert(full.skip(l as int).len() == n - l);
                assert(full.skip(l as int)[0] == sibv);
                assert(full.skip(l as int).drop_first() =~= full.skip(l as int + 1));
                assert(fold_path_f(*h, curv, idxl, full.skip(l as int)) == fold_path_f(
                    *h,
                    optv(S::fval(&next)),
                    idxl / 2,
                    full.skip(l as int + 1),
                ));
                vstd::arithmetic::div_mod::lemma_div_denominator(idx@, pow2(l as nat) as int, 2);
                lemma_pow2_adds(l as nat, 1);
                vstd::arithmetic::power2::lemma2_to64();
                assert(idxl / 2 == idx@ / pow2((l + 1) as nat) as int);
            }
        }
        cur = next;
        l = l + 1;
    }
    proof {
        if hyp {
            assert(full.skip(n as int) =~= Seq::<nat>::empty());
        }
    }
    cur
}

/// Checks a membership path natively: recomputes a candidate root from the
/// leaf digest and the siblings, in the order fixed by the position's
/// parity at each level, and compares it to the claimed root.
pub fn verify_path(parameters: &Hasher, path: &Path, root: &Fp, leaf: &Fp) -> (r: bool)
    requires
        parameters.wf(),
        parameters.arity == 2,
        path.wf(),
        root.wf(),
        leaf.wf(),
    ensures
        r == (fold_path_f(*parameters, leaf@, path.leaf_index as int, path.sib_vals()) == root@),
{
    let ghost idx = path.leaf_index as int;
    let mut bits: Vec<bool> = Vec::new();
    let mut cur: u64 = path.leaf_index;
    let mut l: usize = 0;
    proof {
        vstd::arithmetic::power2::lemma2_to64();
        vstd::arithmetic::div_mod::lemma_div_basics(idx);
    }
    while l < HEIGHT
        invariant
            0 <= l <= HEIGHT,
            idx == path.leaf_index as int,
            idx >= 0,
            bits@.len() == l,
            cur as int == idx / pow2(l as nat) as int,
            forall|m: int|
                0 <= m < l ==> #[trigger] bits@[m] == (idx / pow2(m as nat) as int % 2 == 1),
        decreases HEIGHT - l,
    {
        proof {
            lemma_pow2_pos(l as nat);
            vstd::arithmetic::div_mod::lemma_div_denominator(idx, pow2(l as nat) as int, 2);
            lemma_pow2_adds(l as nat, 1);
            vstd::arithmetic::power2::lemma2_to64();
        }
        bits.push(cur % 2 == 1);
        cur = cur / 2;
        l = l + 1;
    }
    let mut compiler = NativeCompiler;
    let candidate = root_from_path::<Native>(
        parameters,
        &mut compiler,
        leaf,
        &bits,
        &path.siblings,
        Ghost(idx),
    );
    proof {
        assert(bits_bound::<Native>(bits@, idx));
        assert(all_wf::<Native>(path.siblings@));
        assert(all_bound::<Native>(path.siblings@));
        assert(seq_vals::<Native>(path.siblings@) =~= path.sib_vals());
        if candidate@ == root@ {
            crate::field::lemma_value_injective(candidate, *root);
        }
    }
    candidate == *root
}

impl Accumulator {
    /// Looks the item's digest up among the leaves and, if present, returns
    /// the current root together with a membership path for its position
    /// (the first, if it was inserted more than once).  The path always
    /// carries exactly [`HEIGHT`] sibling digests and verifies against the
    /// returned root.
    pub fn membership_proof(&self, item: &Fp) -> (r: Option<(Fp, Path)>)
        requires
            self.wf(),
            item.wf(),
        ensures
            r is Some <==> self.leaf_vals().contains(item@),
            r matches Some((root, path)) ==> {
                &&& root.wf()
                &&& root@ == self.root_val()
                &&& path.wf()
                &&& path.siblings@.len() == HEIGHT
                &&& path.leaf_index < self.leaves@.len()
                &&& self.leaf_vals()[path.leaf_index as int] == item@
                &&& forall|k: int| 0 <= k < path.leaf_index ==> self.leaf_vals()[k] != item@
                &&& fold_path_f(self.parameters, item@, path.leaf_index as int, path.sib_vals())
                    == self.root_val()
            },
    {
        let ghost params = self.parameters;
        let ghost lv = self.leaf_vals();
        let n = self.leaves.len();
        let mut pos: usize = 0;
        let mut found = false;
        while pos < n && !found
            invariant
                n == self.leaves@.len(),
                0 <= pos <= n,
                lv == self.leaf_vals(),
                forall|k: int| 0 <= k < pos ==> lv[k] != item@,
                found ==> pos < n && lv[pos as int] == item@,
            decreases n - pos + if found { 0int } else { 1int },
        {
            if self.leaves[pos] == *item {
                found = true;
            } else {
                proof {
                    if lv[pos as int] == item@ {
                        crate::field::lemma_value_injective(self.leaves@[pos as int], *item);
                    }
                }
                pos = pos + 1;
            }
        }
        if !found {
            proof {
                assert(!lv.contains(item@)) by {
                    assert(forall|k: int| 0 <= k < lv.len() ==> lv[k] != item@);
                }
            }
            return None;
        }
        proof {
            assert(lv.contains(item@)) by {
                assert(lv[pos as int] == item@);
            }
            vstd::arithmetic::power2::lemma2_to64();
            vstd::arithmetic::div_mod::lemma_div_basics(pos as int);
        }
        let mut sibs: Vec<Fp> = Vec::new();
        let mut cur: usize = pos;
        let mut l: usize = 0;
        while l < HEIGHT
            invariant
                self.wf(),
                params == self.parameters,
                lv == self.leaf_vals(),
                n == self.leaves@.len(),
                0 <= pos < self.leaves@.len(),
                lv[pos as int] == item@,
                forall|k: int| 0 <= k < pos ==> lv[k] != item@,
                0 <= l <= HEIGHT,
                cur as int == pos as int / pow2(l as nat) as int,
                sibs@.len() == l,
                fp_all_wf(sibs@),
                forall|m: int|
                    0 <= m < l ==> (#[trigger] sibs@[m])@ == node_f(
                        params,
                        lv,
                        m,
                        sib_of(pos as int / pow2(m as nat) as int),
                    ),
            decreases HEIGHT - l,
        {
            proof {
                lemma_pow2_pos(l as nat);
                lemma_div_bounds(pos as int, pow2(l as nat) as int);
            }
            let s = if cur % 2 == 0 {
                cur + 1
            } else {
                cur - 1
            };
            proof {
                assert(s as int == sib_of(cur as int));
            }
            let v = if l == 0 {
                proof {
                    vstd::arithmetic::power2::lemma2_to64();
                    vstd::arithmetic::div_mod::lemma_div_basics(pos as int);
                    assert(cur == pos);
                }
                if s < n {
                    self.leaves[s]
                } else {
                    proof {
                        assert(pow2(0) == 1) by {
                            vstd::arithmetic::power2::lemma2_to64();
                        }
                        assert(s as int * pow2(0) as int == s as int) by (nonlinear_arith)
                            requires
                                pow2(0) == 1,
                        ;
                        assert(s as int * pow2(0) as int >= lv.len());
                        lemma_empty_subtree(params, lv, 0, s as int);
                    }
                    self.defaults[0]
                }
            } else {
                if s < self.nodes[l].len() {
                    self.nodes[l][s]
                } else {
                    proof {
                        assert(self.nodes@[l as int]@.len() == touched(lv.len() as int, l as int));
                        assert(lv.len() >= 1);
                        assert(s as int >= (lv.len() - 1) / pow2(l as nat) as int + 1);
                        lemma_pred_div(lv.len() as int, pow2(l as nat) as int);
                        lemma_next_multiple((lv.len() - 1) as int, pow2(l as nat) as int);
                        assert(s as int * pow2(l as nat) as int >= lv.len()) by (nonlinear_arith)
                            requires
                                s as int >= (lv.len() - 1) as int / pow2(l as nat) as int + 1,
                                ((lv.len() - 1) as int / pow2(l as nat) as int + 1) * pow2(
                                    l as nat,
                                ) as int > lv.len() - 1,
                                pow2(l as nat) as int >= 1,
                        ;
                        lemma_empty_subtree(params, lv, l as int, s as int);
                    }
                    self.defaults[l]
                }
            };
            sibs.push(v);
            proof {
                vstd::arithmetic::div_mod::lemma_div_denominator(
                    pos as int,
                    pow2(l as nat) as int,
                    2,
                );
                lemma_pow2_adds(l as nat, 1);
                vstd::arithmetic::power2::lemma2_to64();
            }
            cur = cur / 2;
            l = l + 1;
        }
        let root = self.root();
        let path = Path { leaf_index: pos as u64, siblings: sibs };
        proof {
            assert(path.wf()) by {
                vstd::arithmetic::power2::lemma2_to64();
                assert(pos < pow2(HEIGHT as nat));
            }
            assert forall|j: int| 0 <= j < path.sib_vals().len() implies #[trigger] path.sib_vals()[j]
                == node_f(params, lv, 0 + j, sib_of(pos as int / pow2(j as nat) as int)) by {
                assert(path.sib_vals()[j] == sibs@[j]@);
            }
            lemma_fold_to_node(params, lv, 0, pos as int, path.sib_vals());
            assert(node_f(params, lv, 0, pos as int) == item@);
            vstd::arithmetic::div_mod::lemma_basic_div(pos as int, pow2(HEIGHT as nat) as int);
            lemma_pow2_pos(HEIGHT as nat);
        }
        Some((root, path))
    }
}

} // verus!
