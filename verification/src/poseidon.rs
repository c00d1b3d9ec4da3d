//! Poseidon permutation hash, generic over the compiler backend.
//!
//! The permutation is specified once, over sequences of field values
//! (`nat`s below the modulus), and the executable code — written once
//! against [`Specification`] — is proved to compute exactly that function
//! whenever its inputs carry bound values.  Running it over the native
//! backend therefore yields the same field element as running it over a
//! circuit backend on wires bound to the same inputs.

use vstd::prelude::*;
use vstd::arithmetic::power2::{pow2, lemma2_to64};
use vstd::arithmetic::div_mod::lemma_small_mod;
use crate::field::{Fp, add_f, mul_f, pow_f, modulus};
use crate::compiler::{Specification, optv};

verus! {

/// Every element of the sequence is well-formed for the backend.
pub open spec fn all_wf<S: Specification>(s: Seq<S::Field>) -> bool {
    forall|i: int| 0 <= i < s.len() ==> #[trigger] S::fwf(&s[i])
}

/// Every element of the sequence carries a bound value.
pub open spec fn all_bound<S: Specification>(s: Seq<S::Field>) -> bool {
    forall|i: int| 0 <= i < s.len() ==> #[trigger] S::fval(&s[i]) is Some
}

/// Every element of the sequence was allocated under a system of the
/// given mode and, under a proving-mode system, carries a bound value.
pub open spec fn all_in<S: Specification>(cm: bool, s: Seq<S::Field>) -> bool {
    forall|i: int| #![trigger s[i]]
        0 <= i < s.len() ==> S::fmode(&s[i]) == cm && (!cm ==> S::fval(&s[i]) is Some)
}

/// The boolean counterpart of [`all_in`].
pub open spec fn all_bin<S: Specification>(cm: bool, s: Seq<S::Bool>) -> bool {
    forall|i: int| #![trigger s[i]]
        0 <= i < s.len() ==> S::bmode(&s[i]) == cm && (!cm ==> S::bval(&s[i]) is Some)
}

/// The sequence of bound values.
pub open spec fn seq_vals<S: Specification>(s: Seq<S::Field>) -> Seq<nat> {
    Seq::new(s.len(), |i: int| optv(S::fval(&s[i])))
}

/// The domain tag mixed into the initial state: 2^arity - 1, distinct per
/// arity, separating the hash domains of different arities.
pub open spec fn tag_f(arity: nat) -> nat {
    (pow2(arity) - 1) as nat
}

/// A Poseidon parameter set: additive round keys (one per round and state
/// slot) and a square MDS matrix, over a state of width `arity + 1`.
#[derive(Clone, Debug, PartialEq, Eq)]
pub struct Hasher {
    pub arity: usize,
    pub full_rounds: usize,
    pub partial_rounds: usize,
    pub sbox_exponent: u64,
    pub round_keys: Vec<Fp>,
    pub mds_matrix: Vec<Fp>,
}

impl Hasher {
    /// Width of the permutation state.
    pub open spec fn w(&self) -> int {
        self.arity + 1
    }

    /// Number of full rounds before the partial phase.
    pub open spec fn half(&self) -> int {
        self.full_rounds as int / 2
    }

    /// Total number of rounds.
    pub open spec fn n_rounds(&self) -> int {
        self.full_rounds + self.partial_rounds
    }

    /// Rounds outside the middle partial phase apply the S-box to the
    /// whole state.
    pub open spec fn is_full(&self, r: int) -> bool {
        r < self.half() || self.half() + self.partial_rounds <= r
    }

    /// The additive key of round `r`, slot `i`.
    pub open spec fn kv(&self, r: int, i: int) -> nat {
        self.round_keys@[r * self.w() + i]@
    }

    /// The MDS matrix entry at row `i`, column `j`.
    pub open spec fn mv(&self, i: int, j: int) -> nat {
        self.mds_matrix@[i * self.w() + j]@
    }

    /// A valid parameter set: sensible sizes, key and matrix counts
    /// matching the round structure, and every parameter fully reduced.
    pub open spec fn wf(&self) -> bool {
        &&& 1 <= self.arity <= 63
        &&& 2 <= self.full_rounds
        &&& self.full_rounds % 2 == 0
        &&& 1 <= self.sbox_exponent
        &&& self.round_keys@.len() == self.n_rounds() * self.w()
        &&& self.mds_matrix@.len() == self.w() * self.w()
        &&& forall|i: int|
            0 <= i < self.round_keys@.len() ==> (#[trigger] self.round_keys@[i]).wf()
        &&& forall|i: int|
            0 <= i < self.mds_matrix@.len() ==> (#[trigger] self.mds_matrix@[i]).wf()
    }

    /// One term of an MDS row product.
    pub open spec fn term(&self, s: Seq<nat>, i: int, j: int) -> nat {
        mul_f(s[j], self.mv(i, j))
    }

    /// The left fold of the first `k` terms of row `i` against `s`.
    pub open spec fn dot(&self, s: Seq<nat>, i: int, k: int) -> nat
        decreases k,
    {
        if k <= 1 {
            self.term(s, i, 0)
        } else {
            add_f(self.dot(s, i, k - 1), self.term(s, i, k - 1))
        }
    }

    /// The state after multiplication by the MDS matrix.
    pub open spec fn mds_apply(&self, s: Seq<nat>) -> Seq<nat> {
        Seq::new(self.w() as nat, |i: int| self.dot(s, i, self.w()))
    }

    /// The state after adding the round keys of round `r`.
    pub open spec fn keyed(&self, r: int, s: Seq<nat>) -> Seq<nat> {
        Seq::new(s.len(), |i: int| add_f(s[i], self.kv(r, i)))
    }

    /// The state after applying the S-box to every slot.
    pub open spec fn sbox_all(&self, s: Seq<nat>) -> Seq<nat> {
        Seq::new(s.len(), |i: int| pow_f(s[i], self.sbox_exponent as nat))
    }

    /// The state after applying the S-box to the first slot only.
    pub open spec fn sbox_first(&self, s: Seq<nat>) -> Seq<nat> {
        Seq::new(
            s.len(),
            |i: int|
                if i == 0 {
                    pow_f(s[i], self.sbox_exponent as nat)
                } else {
                    s[i]
                },
        )
    }

    /// One round: add keys, S-box (full or partial), MDS multiply.
    pub open spec fn round_f(&self, r: int, s: Seq<nat>) -> Seq<nat> {
        if self.is_full(r) {
            self.mds_apply(self.sbox_all(self.keyed(r, s)))
        } else {
            self.mds_apply(self.sbox_first(self.keyed(r, s)))
        }
    }

    /// The state after the first `n` rounds.
    pub open spec fn perm(&self, init: Seq<nat>, n: int) -> Seq<nat>
        decreases n,
    {
        if n <= 0 {
            init
        } else {
            self.round_f(n - 1, self.perm(init, n - 1))
        }
    }

    /// The initial state: the domain tag followed by the inputs.
    pub open spec fn init_f(&self, inputs: Seq<nat>) -> Seq<nat> {
        seq![tag_f(self.arity as nat)] + inputs
    }

    /// The hash of `inputs`: the first slot of the fully permuted state.
    pub open spec fn hash_f(&self, inputs: Seq<nat>) -> nat {
        self.perm(self.init_f(inputs), self.n_rounds())[0]
    }
}


impl Hasher {
    /// Builds a parameter set, rejecting one whose key or matrix counts do
    /// not match the round structure.
    pub fn new(
        arity: usize,
        full_rounds: usize,
        partial_rounds: usize,
        sbox_exponent: u64,
        round_keys: Vec<Fp>,
        mds_matrix: Vec<Fp>,
    ) -> (r: Option<Hasher>)
        requires
            1 <= arity <= 63,
            2 <= full_rounds,
            full_rounds % 2 == 0,
            1 <= sbox_exponent,
            forall|i: int| 0 <= i < round_keys@.len() ==> (#[trigger] round_keys@[i]).wf(),
            forall|i: int| 0 <= i < mds_matrix@.len() ==> (#[trigger] mds_matrix@[i]).wf(),
        ensures
            r is Some <==> {
                &&& round_keys@.len() == (full_rounds + partial_rounds) * (arity + 1)
                &&& mds_matrix@.len() == (arity + 1) * (arity + 1)
            },
            r matches Some(h) ==> h.wf() && h == (Hasher {
                arity,
                full_rounds,
                partial_rounds,
                sbox_exponent,
                round_keys,
                mds_matrix,
            }),
    {
        let n_rounds: u128 = full_rounds as u128 + partial_rounds as u128;
        let width: u128 = arity as u128 + 1;
        proof {
            assert(n_rounds * width < 0x1_0000_0000_0000_0000_0000u128 && width * width < 0x1_0000u128)
                by (nonlinear_arith)
                requires
                    n_rounds <= 0xffff_ffff_ffff_ffffu128 + 0xffff_ffff_ffff_ffffu128,
                    width <= 64,
            ;
        }
        let keys_needed: u128 = n_rounds * width;
        let mds_needed: u128 = width * width;
        if round_keys.len() as u128 != keys_needed || mds_matrix.len() as u128 != mds_needed {
            return None;
        }
        Some(Self::new_unchecked(arity, full_rounds, partial_rounds, sbox_exponent, round_keys, mds_matrix))
    }

    /// Builds a parameter set whose counts are already known to match.
    fn new_unchecked(
        arity: usize,
        full_rounds: usize,
        partial_rounds: usize,
        sbox_exponent: u64,
        round_keys: Vec<Fp>,
        mds_matrix: Vec<Fp>,
    ) -> (r: Hasher)
        requires
            1 <= arity <= 63,
            2 <= full_rounds,
            full_rounds % 2 == 0,
            1 <= sbox_exponent,
            round_keys@.len() == (full_rounds + partial_rounds) * (arity + 1),
            mds_matrix@.len() == (arity + 1) * (arity + 1),
            forall|i: int| 0 <= i < round_keys@.len() ==> (#[trigger] round_keys@[i]).wf(),
            forall|i: int| 0 <= i < mds_matrix@.len() ==> (#[trigger] mds_matrix@[i]).wf(),
        ensures
            r.wf(),
            r == (Hasher { arity, full_rounds, partial_rounds, sbox_exponent, round_keys, mds_matrix }),
    {
        Hasher { arity, full_rounds, partial_rounds, sbox_exponent, round_keys, mds_matrix }
    }

    /// Total number of rounds of the permutation.
    pub fn rounds(&self) -> (r: usize)
        requires
            self.wf(),
        ensures
            r == self.n_rounds(),
    {
        let nk = self.round_keys.len();
        proof {
            assert(self.n_rounds() <= self.n_rounds() * self.w() <= usize::MAX)
                by (nonlinear_arith)
                requires
                    self.w() >= 2,
                    self.n_rounds() >= 0,
                    self.n_rounds() * self.w() == nk as int,
                    nk <= usize::MAX,
            ;
        }
        self.full_rounds + self.partial_rounds
    }

    /// Width of the permutation state.
    pub fn width(&self) -> (r: usize)
        requires
            self.wf(),
        ensures
            r == self.w(),
    {
        self.arity + 1
    }
}

/// The domain tag of the given arity, as a field element.
pub fn domain_tag(arity: usize) -> (r: Fp)
    requires
        1 <= arity <= 63,
    ensures
        r.wf(),
        r@ == tag_f(arity as nat),
{
    proof {
        lemma2_to64();
        vstd::arithmetic::power2::lemma2_to64_rest();
        assert(pow2(arity as nat) <= pow2(63)) by {
            if (arity as nat) < 63 {
                vstd::arithmetic::power2::lemma_pow2_strictly_increases(arity as nat, 63);
            }
        }
        vstd::bits::lemma_u64_shl_is_mul(1u64, arity as u64);
    }
    Fp::from_u64((1u64 << (arity as u64)) - 1)
}

/// The S-box x -> x^e, by repeated multiplication in the backend.
pub fn apply_sbox<S: Specification>(
    compiler: &mut S::Compiler,
    x: &S::Field,
    e: u64,
) -> (r: S::Field)
    requires
        S::fwf(x),
        1 <= e,
        S::fmode(x) == S::cmode(old(compiler)),
        !S::cmode(old(compiler)) ==> S::fval(x) is Some,
    ensures
        S::fwf(&r),
        S::fval(x) matches Some(v) ==> S::fval(&r) == Some(pow_f(v, e as nat)),
        S::cmode(final(compiler)) == S::cmode(old(compiler)),
        S::fmode(&r) == S::cmode(old(compiler)),
        !S::cmode(old(compiler)) ==> S::fval(&r) is Some,
{
    let ghost cm = S::cmode(compiler);
    proof {
        S::fwf_bound(x);
        if S::fval(x) is Some {
            let v = optv(S::fval(x));
            assert(pow_f(v, 0) == 1);
            assert(pow_f(v, 1) == mul_f(v, pow_f(v, 0)));
            assert(mul_f(v, 1) == v) by {
                assert(v * 1 == v);
                lemma_small_mod(v, modulus());
            }
        }
    }
    let mut acc = S::dup(compiler, x);
    let mut i: u64 = 1;
    while i < e
        invariant
            1 <= i <= e,
            S::fwf(x),
            S::fwf(&acc),
            S::fval(x) matches Some(v) ==> S::fval(&acc) == Some(pow_f(v, i as nat)),
            S::cmode(compiler) == cm,
            S::fmode(x) == cm,
            S::fmode(&acc) == cm,
            !cm ==> S::fval(x) is Some,
            !cm ==> S::fval(&acc) is Some,
        decreases e - i,
    {
        proof {
            if S::fval(x) is Some {
                let v = optv(S::fval(x));
                assert(mul_f(pow_f(v, i as nat), v) == mul_f(v, pow_f(v, i as nat)))
                    by (nonlinear_arith);
                assert(mul_f(v, pow_f(v, i as nat)) == pow_f(v, (i + 1) as nat));
            }
        }
        acc = S::mul(compiler, &acc, x);
        i = i + 1;
    }
    acc
}


impl Hasher {
    /// Multiplies the state by the MDS matrix in the given backend.
    pub fn mds_matrix_multiply<S: Specification>(
        &self,
        compiler: &mut S::Compiler,
        state: &Vec<S::Field>,
    ) -> (next: Vec<S::Field>)
        requires
            self.wf(),
            state@.len() == self.w(),
            all_wf::<S>(state@),
            all_in::<S>(S::cmode(old(compiler)), state@),
        ensures
            next@.len() == self.w(),
            all_wf::<S>(next@),
            all_bound::<S>(state@) ==> all_bound::<S>(next@) && seq_vals::<S>(next@)
                == self.mds_apply(seq_vals::<S>(state@)),
            S::cmode(final(compiler)) == S::cmode(old(compiler)),
            all_in::<S>(S::cmode(old(compiler)), next@),
    {
        let ghost cm = S::cmode(compiler);
        let ghost sv = seq_vals::<S>(state@);
        let w = self.arity + 1;
        let nm = self.mds_matrix.len();
        let mut next: Vec<S::Field> = Vec::new();
        let mut i: usize = 0;
        while i < w
            invariant
                self.wf(),
                w == self.w(),
                nm == self.mds_matrix@.len(),
                state@.len() == w,
                all_wf::<S>(state@),
                sv == seq_vals::<S>(state@),
                i <= w,
                next@.len() == i,
                S::cmode(compiler) == cm,
                all_in::<S>(cm, state@),
                all_in::<S>(cm, next@),
                forall|k: int| 0 <= k < i ==> S::fwf(&next@[k]),
                all_bound::<S>(state@) ==> forall|k: int|
                    0 <= k < i ==> S::fval(&next@[k]) == Some(self.dot(sv, k, self.w())),
            decreases w - i,
        {
            proof {
                assert(i * w + w <= w * w) by (nonlinear_arith)
                    requires
                        0 <= i < w,
                ;
                assert(w * w == nm);
            }
            let mut acc = S::mul_const(compiler, &state[0], &self.mds_matrix[i * w]);
            proof {
                assert(i * (w as int) + 0 == (i * w) as int);
                if all_bound::<S>(state@) {
                    assert(S::fval(&state@[0]) is Some);
                    assert(sv[0] == optv(S::fval(&state@[0])));
                    assert(S::fval(&acc) == Some(self.term(sv, i as int, 0)));
                }
            }
            let mut j: usize = 1;
            while j < w
                invariant
                    self.wf(),
                    w == self.w(),
                    nm == self.mds_matrix@.len(),
                    state@.len() == w,
                    all_wf::<S>(state@),
                    sv == seq_vals::<S>(state@),
                    i < w,
                    1 <= j <= w,
                    S::fwf(&acc),
                    S::cmode(compiler) == cm,
                    all_in::<S>(cm, state@),
                    S::fmode(&acc) == cm,
                    !cm ==> S::fval(&acc) is Some,
                    all_bound::<S>(state@) ==> S::fval(&acc) == Some(
                        self.dot(sv, i as int, j as int),
                    ),
                decreases w - j,
            {
                proof {
                    assert(i * w + j < w * w) by (nonlinear_arith)
                        requires
                            0 <= i < w,
                            0 <= j < w,
                    ;
                    assert(w * w == nm);
                }
                let t = S::mul_const(compiler, &state[j], &self.mds_matrix[i * w + j]);
                proof {
                    if all_bound::<S>(state@) {
                        assert(S::fval(&state@[j as int]) is Some);
                        assert(sv[j as int] == optv(S::fval(&state@[j as int])));
                        assert(S::fval(&t) == Some(self.term(sv, i as int, j as int)));
                    }
                }
                acc = S::add(compiler, &acc, &t);
                j = j + 1;
            }
            next.push(acc);
            i = i + 1;
        }
        proof {
            if all_bound::<S>(state@) {
                assert(seq_vals::<S>(next@) =~= self.mds_apply(sv));
            }
        }
        next
    }

    /// The opening round: key the domain tag and the inputs, apply the
    /// S-box everywhere, and mix.
    pub fn first_round<S: Specification>(
        &self,
        compiler: &mut S::Compiler,
        input: &Vec<S::Field>,
    ) -> (out: Vec<S::Field>)
        requires
            self.wf(),
            input@.len() == self.arity,
            all_wf::<S>(input@),
            all_in::<S>(S::cmode(old(compiler)), input@),
        ensures
            out@.len() == self.w(),
            all_wf::<S>(out@),
            all_bound::<S>(input@) ==> all_bound::<S>(out@) && seq_vals::<S>(out@)
                == self.round_f(0, self.init_f(seq_vals::<S>(input@))),
            S::cmode(final(compiler)) == S::cmode(old(compiler)),
            all_in::<S>(S::cmode(old(compiler)), out@),
    {
        let ghost cm = S::cmode(compiler);
        let ghost init = self.init_f(seq_vals::<S>(input@));
        let w = self.arity + 1;
        let tag = domain_tag(self.arity);
        let tagv = S::constant(compiler, &tag);
        proof {
            assert(0 * self.w() + 0 == 0);
            assert(init[0] == tag_f(self.arity as nat));
            assert(self.n_rounds() * self.w() >= 4) by (nonlinear_arith)
                requires
                    self.n_rounds() >= 2,
                    self.w() >= 2,
            ;
        }
        let keyed0 = S::add_const(compiler, &tagv, &self.round_keys[0]);
        let first = apply_sbox::<S>(compiler, &keyed0, self.sbox_exponent);
        let mut state: Vec<S::Field> = Vec::new();
        state.push(first);
        let mut i: usize = 1;
        while i < w
            invariant
                self.wf(),
                w == self.w(),
                input@.len() == self.arity,
                all_wf::<S>(input@),
                init == self.init_f(seq_vals::<S>(input@)),
                1 <= i <= w,
                state@.len() == i,
                S::cmode(compiler) == cm,
                all_in::<S>(cm, input@),
                all_in::<S>(cm, state@),
                forall|k: int| 0 <= k < i ==> S::fwf(&state@[k]),
                all_bound::<S>(input@) ==> forall|k: int|
                    0 <= k < i ==> S::fval(&state@[k]) == Some(
                        pow_f(add_f(init[k], self.kv(0, k)), self.sbox_exponent as nat),
                    ),
            decreases w - i,
        {
            proof {
                assert(0 * self.w() + i == i as int);
                assert(i < self.round_keys@.len()) by (nonlinear_arith)
                    requires
                        0 <= i < self.w(),
                        self.round_keys@.len() == self.n_rounds() * self.w(),
                        self.n_rounds() >= 2,
                ;
                if all_bound::<S>(input@) {
                    assert(S::fval(&input@[i - 1]) is Some);
                    assert(init[i as int] == seq_vals::<S>(input@)[i - 1]);
                }
                assert(S::fmode(&input@[i - 1]) == cm && (!cm ==> S::fval(&input@[i - 1])
                    is Some));
            }
            let keyedi = S::add_const(compiler, &input[i - 1], &self.round_keys[i]);
            let el = apply_sbox::<S>(compiler, &keyedi, self.sbox_exponent);
            state.push(el);
            i = i + 1;
        }
        proof {
            if all_bound::<S>(input@) {
                assert(init.len() == self.w());
                assert(seq_vals::<S>(state@) =~= self.sbox_all(self.keyed(0, init)));
                assert(self.is_full(0));
            }
        }
        self.mds_matrix_multiply::<S>(compiler, &state)
    }

    /// A full round at index `r`: key, S-box every slot, mix.
    pub fn full_round<S: Specification>(
        &self,
        compiler: &mut S::Compiler,
        r: usize,
        state: &Vec<S::Field>,
    ) -> (out: Vec<S::Field>)
        requires
            self.wf(),
            r < self.n_rounds(),
            self.is_full(r as int),
            state@.len() == self.w(),
            all_wf::<S>(state@),
            all_in::<S>(S::cmode(old(compiler)), state@),
        ensures
            out@.len() == self.w(),
            all_wf::<S>(out@),
            all_bound::<S>(state@) ==> all_bound::<S>(out@) && seq_vals::<S>(out@)
                == self.round_f(r as int, seq_vals::<S>(state@)),
            S::cmode(final(compiler)) == S::cmode(old(compiler)),
            all_in::<S>(S::cmode(old(compiler)), out@),
    {
        let ghost cm = S::cmode(compiler);
        let ghost sv = seq_vals::<S>(state@);
        let w = self.arity + 1;
        let nk = self.round_keys.len();
        let mut keyed: Vec<S::Field> = Vec::new();
        let mut i: usize = 0;
        while i < w
            invariant
                self.wf(),
                w == self.w(),
                nk == self.round_keys@.len(),
                r < self.n_rounds(),
                state@.len() == w,
                all_wf::<S>(state@),
                sv == seq_vals::<S>(state@),
                i <= w,
                keyed@.len() == i,
                S::cmode(compiler) == cm,
                all_in::<S>(cm, state@),
                all_in::<S>(cm, keyed@),
                forall|k: int| 0 <= k < i ==> S::fwf(&keyed@[k]),
                all_bound::<S>(state@) ==> forall|k: int|
                    0 <= k < i ==> S::fval(&keyed@[k]) == Some(
                        pow_f(add_f(sv[k], self.kv(r as int, k)), self.sbox_exponent as nat),
                    ),
            decreases w - i,
        {
            proof {
                assert(r * w + i < self.n_rounds() * self.w()) by (nonlinear_arith)
                    requires
                        0 <= i < w,
                        w == self.w(),
                        0 <= r < self.n_rounds(),
                ;
                assert(self.n_rounds() * self.w() == nk);
                if all_bound::<S>(state@) {
                    assert(S::fval(&state@[i as int]) is Some);
                    assert(sv[i as int] == optv(S::fval(&state@[i as int])));
                }
                assert(S::fmode(&state@[i as int]) == cm && (!cm ==> S::fval(&state@[i as int])
                    is Some));
            }
            let keyedi = S::add_const(compiler, &state[i], &self.round_keys[r * w + i]);
            let el = apply_sbox::<S>(compiler, &keyedi, self.sbox_exponent);
            keyed.push(el);
            i = i + 1;
        }
        proof {
            if all_bound::<S>(state@) {
                assert(seq_vals::<S>(keyed@) =~= self.sbox_all(self.keyed(r as int, sv)));
            }
        }
        self.mds_matrix_multiply::<S>(compiler, &keyed)
    }

    /// A partial round at index `r`: key, S-box the first slot only, mix.
    pub fn partial_round<S: Specification>(
        &self,
        compiler: &mut S::Compiler,
        r: usize,
        state: &Vec<S::Field>,
    ) -> (out: Vec<S::Field>)
        requires
            self.wf(),
            r < self.n_rounds(),
            !self.is_full(r as int),
            state@.len() == self.w(),
            all_wf::<S>(state@),
            all_in::<S>(S::cmode(old(compiler)), state@),
        ensures
            out@.len() == self.w(),
            all_wf::<S>(out@),
            all_bound::<S>(state@) ==> all_bound::<S>(out@) && seq_vals::<S>(out@)
                == self.round_f(r as int, seq_vals::<S>(state@)),
            S::cmode(final(compiler)) == S::cmode(old(compiler)),
            all_in::<S>(S::cmode(old(compiler)), out@),
    {
        let ghost cm = S::cmode(compiler);
        let ghost sv = seq_vals::<S>(state@);
        let w = self.arity + 1;
        let nk = self.round_keys.len();
        let mut keyed: Vec<S::Field> = Vec::new();
        let mut i: usize = 0;
        while i < w
            invariant
                self.wf(),
                w == self.w(),
                nk == self.round_keys@.len(),
                r < self.n_rounds(),
                state@.len() == w,
                all_wf::<S>(state@),
                sv == seq_vals::<S>(state@),
                i <= w,
                keyed@.len() == i,
                S::cmode(compiler) == cm,
                all_in::<S>(cm, state@),
                all_in::<S>(cm, keyed@),
                forall|k: int| 0 <= k < i ==> S::fwf(&keyed@[k]),
                all_bound::<S>(state@) ==> forall|k: int|
                    0 <= k < i ==> S::fval(&keyed@[k]) == Some(
                        if k == 0 {
                            pow_f(
                                add_f(sv[k], self.kv(r as int, k)),
                                self.sbox_exponent as nat,
                            )
                        } else {
                            add_f(sv[k], self.kv(r as int, k))
                        },
                    ),
            decreases w - i,
        {
            proof {
                assert(r * w + i < self.n_rounds() * self.w()) by (nonlinear_arith)
                    requires
                        0 <= i < w,
                        w == self.w(),
                        0 <= r < self.n_rounds(),
                ;
                assert(self.n_rounds() * self.w() == nk);
                if all_bound::<S>(state@) {
                    assert(S::fval(&state@[i as int]) is Some);
                    assert(sv[i as int] == optv(S::fval(&state@[i as int])));
                }
                assert(S::fmode(&state@[i as int]) == cm && (!cm ==> S::fval(&state@[i as int])
                    is Some));
            }
            let keyedi = S::add_const(compiler, &state[i], &self.round_keys[r * w + i]);
            if i == 0 {
                let el = apply_sbox::<S>(compiler, &keyedi, self.sbox_exponent);
                keyed.push(el);
            } else {
                keyed.push(keyedi);
            }
            i = i + 1;
        }
        proof {
            if all_bound::<S>(state@) {
                assert(seq_vals::<S>(keyed@) =~= self.sbox_first(self.keyed(r as int, sv)));
            }
        }
        self.mds_matrix_multiply::<S>(compiler, &keyed)
    }

    /// Runs the whole permutation and returns the final state.
    pub fn hash_untruncated<S: Specification>(
        &self,
        compiler: &mut S::Compiler,
        input: &Vec<S::Field>,
    ) -> (out: Vec<S::Field>)
        requires
            self.wf(),
            input@.len() == self.arity,
            all_wf::<S>(input@),
            all_in::<S>(S::cmode(old(compiler)), input@),
        ensures
            out@.len() == self.w(),
            all_wf::<S>(out@),
            all_bound::<S>(input@) ==> all_bound::<S>(out@) && seq_vals::<S>(out@)
                == self.perm(self.init_f(seq_vals::<S>(input@)), self.n_rounds()),
            S::cmode(final(compiler)) == S::cmode(old(compiler)),
            all_in::<S>(S::cmode(old(compiler)), out@),
    {
        let ghost cm = S::cmode(compiler);
        let ghost init = self.init_f(seq_vals::<S>(input@));
        let total = self.rounds();
        let half = self.full_rounds / 2;
        let mid_end = half + self.partial_rounds;
        let mut state = self.first_round::<S>(compiler, input);
        let mut r: usize = 1;
        proof {
            assert(self.perm(init, 1) == self.round_f(0, self.perm(init, 0)));
        }
        while r < half
            invariant
                self.wf(),
                input@.len() == self.arity,
                all_wf::<S>(input@),
                init == self.init_f(seq_vals::<S>(input@)),
                S::cmode(compiler) == cm,
                all_in::<S>(cm, state@),
                half == self.half(),
                1 <= r <= half || r == 1,
                r <= self.n_rounds(),
                state@.len() == self.w(),
                all_wf::<S>(state@),
                all_bound::<S>(input@) ==> all_bound::<S>(state@) && seq_vals::<S>(state@)
                    == self.perm(init, r as int),
            decreases half - r,
        {
            state = self.full_round::<S>(compiler, r, &state);
            r = r + 1;
        }
        while r < mid_end
            invariant
                self.wf(),
                input@.len() == self.arity,
                all_wf::<S>(input@),
                init == self.init_f(seq_vals::<S>(input@)),
                half == self.half(),
                S::cmode(compiler) == cm,
                all_in::<S>(cm, state@),
                mid_end == self.half() + self.partial_rounds,
                half <= r <= mid_end || (r == 1 && half <= 1),
                1 <= r <= self.n_rounds(),
                state@.len() == self.w(),
                all_wf::<S>(state@),
                all_bound::<S>(input@) ==> all_bound::<S>(state@) && seq_vals::<S>(state@)
                    == self.perm(init, r as int),
            decreases mid_end - r,
        {
            state = self.partial_round::<S>(compiler, r, &state);
            r = r + 1;
        }
        while r < total
            invariant
                self.wf(),
                input@.len() == self.arity,
                all_wf::<S>(input@),
                init == self.init_f(seq_vals::<S>(input@)),
                half == self.half(),
                mid_end == self.half() + self.partial_rounds,
                S::cmode(compiler) == cm,
                all_in::<S>(cm, state@),
                total == self.n_rounds(),
                mid_end <= r <= total || (r == 1 && mid_end <= 1),
                1 <= r <= self.n_rounds(),
                state@.len() == self.w(),
                all_wf::<S>(state@),
                all_bound::<S>(input@) ==> all_bound::<S>(state@) && seq_vals::<S>(state@)
                    == self.perm(init, r as int),
            decreases total - r,
        {
            state = self.full_round::<S>(compiler, r, &state);
            r = r + 1;
        }
        state
    }

    /// The Poseidon hash of `input`: the first slot of the permuted state.
    pub fn hash<S: Specification>(
        &self,
        compiler: &mut S::Compiler,
        input: &Vec<S::Field>,
    ) -> (r: S::Field)
        requires
            self.wf(),
            input@.len() == self.arity,
            all_wf::<S>(input@),
            all_in::<S>(S::cmode(old(compiler)), input@),
        ensures
            S::fwf(&r),
            all_bound::<S>(input@) ==> S::fval(&r) == Some(self.hash_f(seq_vals::<S>(input@))),
            S::cmode(final(compiler)) == S::cmode(old(compiler)),
            S::fmode(&r) == S::cmode(old(compiler)),
            !S::cmode(old(compiler)) ==> S::fval(&r) is Some,
    {
        let state = self.hash_untruncated::<S>(compiler, input);
        proof {
            assert(S::fmode(&state@[0]) == S::cmode(compiler) && (!S::cmode(compiler) ==> S::fval(
                &state@[0],
            ) is Some));
        }
        let out = S::dup(compiler, &state[0]);
        proof {
            if all_bound::<S>(input@) {
                assert(S::fval(&state@[0]) is Some);
                assert(seq_vals::<S>(state@)[0] == optv(S::fval(&state@[0])));
            }
        }
        out
    }
}

} // verus!
