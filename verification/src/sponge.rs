//! The Poseidon sponge: a permutation over a `rate + capacity` state of field
//! elements, and an absorb/squeeze state machine on top of it.
//!
//! Every executable operation is specified against a mathematical model: the
//! spec functions below describe the permutation round structure and the
//! absorb/squeeze transitions over sequences of residues, and the contracts
//! of the executable functions pin their results to that model.

use vstd::prelude::*;

verus! {

use crate::field::Felt;
use crate::field::add_f;
use crate::field::mul_f;
use crate::field::pow_f;
use crate::field::bytes_le;
use crate::field::bits_le;
use crate::field::felt_zero;
use crate::field::felt_add;
use crate::field::felt_mul;
use crate::field::felt_pow;
use crate::field::felt_bytes_le;
use crate::field::felt_bits_le;
use crate::field::USABLE_BITS;
use crate::field::USABLE_BYTES;
use crate::params::PoseidonParameters;
use vstd::arithmetic::div_mod::lemma_div_is_strictly_smaller;
use vstd::arithmetic::div_mod::lemma_fundamental_div_mod;
use vstd::arithmetic::div_mod::lemma_fundamental_div_mod_converse_div;
use vstd::arithmetic::div_mod::lemma_fundamental_div_mod_converse_mod;

/// Whether the sponge is currently taking input or giving output, with the
/// cursor into the rate portion of the state.
#[derive(Clone, Copy, PartialEq, Eq, Structural, Debug)]
pub enum PoseidonSpongeMode {
    /// Accepting input; the next absorbed element lands at this state index.
    Absorbing { next_absorb_index: usize },
    /// Producing output; the next squeezed element is read from this index.
    Squeezing { next_squeeze_index: usize },
}

/// The residues a sequence of field elements stands for.
pub open spec fn vals(s: Seq<Felt>) -> Seq<int> {
    s.map(|i: int, f: Felt| f.val())
}

/// Every element of the sequence is a reduced residue.
pub open spec fn all_wf(s: Seq<Felt>) -> bool {
    forall|i: int| 0 <= i < s.len() ==> (#[trigger] s[i]).wf()
}

/// One add-round-key step: the round's key added elementwise to the state.
pub open spec fn spec_ark_step(p: PoseidonParameters, s: Seq<int>, r: int) -> Seq<int> {
    Seq::new(s.len(), |i: int| add_f(s[i], p.ark_at(r, i)))
}

/// One S-box step: `x ^ alpha` on every element in a full round, and on the
/// last element only in a partial round.
pub open spec fn spec_sbox(p: PoseidonParameters, s: Seq<int>, full: bool) -> Seq<int> {
    if full {
        Seq::new(s.len(), |i: int| pow_f(s[i], p.alpha as nat))
    } else {
        s.update(s.len() - 1, pow_f(s[s.len() - 1], p.alpha as nat))
    }
}

/// The first `k` terms of row `i` of the mixing product, accumulated with a
/// reduction after every term, exactly as the engine computes it.
pub open spec fn dot_mod(p: PoseidonParameters, s: Seq<int>, i: int, k: nat) -> int
    decreases k,
{
    if k == 0 {
        0int
    } else {
        add_f(dot_mod(p, s, i, (k - 1) as nat), mul_f(s[k - 1], p.mds_at(i, k - 1)))
    }
}

/// The mixing step: the state multiplied by the mixing matrix.
pub open spec fn spec_mds(p: PoseidonParameters, s: Seq<int>) -> Seq<int> {
    Seq::new(s.len(), |i: int| dot_mod(p, s, i, s.len()))
}

/// One round of the permutation: add round key, S-box, mix.
pub open spec fn spec_round(p: PoseidonParameters, s: Seq<int>, r: int) -> Seq<int> {
    spec_mds(p, spec_sbox(p, spec_ark_step(p, s, r), p.is_full_round(r)))
}

/// The first `n` rounds of the permutation applied to `s`.
pub open spec fn spec_permute_n(p: PoseidonParameters, s: Seq<int>, n: nat) -> Seq<int>
    decreases n,
{
    if n == 0 {
        s
    } else {
        spec_round(p, spec_permute_n(p, s, (n - 1) as nat), n - 1)
    }
}

/// The full permutation: all full and partial rounds applied to `s`.
pub open spec fn spec_permute(p: PoseidonParameters, s: Seq<int>) -> Seq<int> {
    spec_permute_n(p, s, p.rounds() as nat)
}

/// `elems` added elementwise into `s` starting at index `start`.
pub open spec fn add_block(s: Seq<int>, start: int, elems: Seq<int>) -> Seq<int> {
    Seq::new(
        s.len(),
        |i: int|
            if start <= i < start + elems.len() {
                add_f(s[i], elems[i - start])
            } else {
                s[i]
            },
    )
}

/// The absorb loop: fill the rate portion from `start`, permuting between
/// chunks, until all of `elems` is taken in. Returns the new state and mode.
pub open spec fn spec_absorb_internal(
    p: PoseidonParameters,
    s: Seq<int>,
    rate: int,
    start: int,
    elems: Seq<int>,
) -> (Seq<int>, PoseidonSpongeMode)
    decreases elems.len(),
        when 0 <= start < rate
{
    if start + elems.len() <= rate {
        (
            add_block(s, start, elems),
            PoseidonSpongeMode::Absorbing { next_absorb_index: (start + elems.len()) as usize },
        )
    } else {
        let k = rate - start;
        spec_absorb_internal(
            p,
            spec_permute(p, add_block(s, start, elems.take(k))),
            rate,
            0,
            elems.skip(k),
        )
    }
}

/// The squeeze loop: read from the rate portion from `start`, permuting
/// between chunks, until `n` elements are produced — except that no
/// permutation is inserted when the output remaining at a chunk boundary is
/// exactly one full rate block. Returns the output, new state, and mode.
pub open spec fn spec_squeeze_internal(
    p: PoseidonParameters,
    s: Seq<int>,
    rate: int,
    start: int,
    n: nat,
) -> (Seq<int>, Seq<int>, PoseidonSpongeMode)
    decreases n,
        when 0 <= start < rate
{
    if start + n <= rate {
        (
            s.subrange(start, start + n),
            s,
            PoseidonSpongeMode::Squeezing { next_squeeze_index: (start + n) as usize },
        )
    } else {
        let k = rate - start;
        let chunk = s.subrange(start, rate);
        let s2 = if n == rate {
            s
        } else {
            spec_permute(p, s)
        };
        let rest = spec_squeeze_internal(p, s2, rate, 0, (n - k) as nat);
        (chunk + rest.0, rest.1, rest.2)
    }
}

/// What `absorb` does: nothing on empty input; otherwise a permutation first
/// when the rate is already full or when the sponge was squeezing, then the
/// absorb loop.
pub open spec fn spec_absorb(
    p: PoseidonParameters,
    s: Seq<int>,
    rate: int,
    mode: PoseidonSpongeMode,
    elems: Seq<int>,
) -> (Seq<int>, PoseidonSpongeMode) {
    if elems.len() == 0 {
        (s, mode)
    } else {
        match mode {
            PoseidonSpongeMode::Absorbing { next_absorb_index } => {
                if next_absorb_index == rate {
                    spec_absorb_internal(p, spec_permute(p, s), rate, 0, elems)
                } else {
                    spec_absorb_internal(p, s, rate, next_absorb_index as int, elems)
                }
            },
            PoseidonSpongeMode::Squeezing { .. } => {
                spec_absorb_internal(p, spec_permute(p, s), rate, 0, elems)
            },
        }
    }
}

/// What `squeeze_field_elements` does: a permutation first when the sponge
/// was absorbing or the rate is drained, then the squeeze loop.
pub open spec fn spec_squeeze(
    p: PoseidonParameters,
    s: Seq<int>,
    rate: int,
    mode: PoseidonSpongeMode,
    n: nat,
) -> (Seq<int>, Seq<int>, PoseidonSpongeMode) {
    match mode {
        PoseidonSpongeMode::Absorbing { .. } => {
            spec_squeeze_internal(p, spec_permute(p, s), rate, 0, n)
        },
        PoseidonSpongeMode::Squeezing { next_squeeze_index } => {
            if next_squeeze_index == rate {
                spec_squeeze_internal(p, spec_permute(p, s), rate, 0, n)
            } else {
                spec_squeeze_internal(p, s, rate, next_squeeze_index as int, n)
            }
        },
    }
}

/// How many field elements cover `n` bytes of output.
pub open spec fn elems_for_bytes(n: nat) -> nat {
    n / (USABLE_BYTES as nat) + if n % (USABLE_BYTES as nat) == 0 {
        0nat
    } else {
        1nat
    }
}

/// How many field elements cover `n` bits of output.
pub open spec fn elems_for_bits(n: nat) -> nat {
    n / (USABLE_BITS as nat) + if n % (USABLE_BITS as nat) == 0 {
        0nat
    } else {
        1nat
    }
}

/// What `squeeze_bytes` does: squeeze enough elements, lay out the low-order
/// bytes of each in order, and truncate to exactly `n` bytes.
pub open spec fn spec_squeeze_bytes(
    p: PoseidonParameters,
    s: Seq<int>,
    rate: int,
    mode: PoseidonSpongeMode,
    n: nat,
) -> (Seq<int>, Seq<int>, PoseidonSpongeMode) {
    let q = spec_squeeze(p, s, rate, mode, elems_for_bytes(n));
    (
        Seq::new(
            n,
            |i: int| bytes_le(q.0[i / (USABLE_BYTES as int)], USABLE_BYTES as nat)[i % (
            USABLE_BYTES as int)],
        ),
        q.1,
        q.2,
    )
}

/// What `squeeze_bits` does: squeeze enough elements, lay out the low-order
/// bits of each in order, and truncate to exactly `n` bits.
pub open spec fn spec_squeeze_bits(
    p: PoseidonParameters,
    s: Seq<int>,
    rate: int,
    mode: PoseidonSpongeMode,
    n: nat,
) -> (Seq<bool>, Seq<int>, PoseidonSpongeMode) {
    let q = spec_squeeze(p, s, rate, mode, elems_for_bits(n));
    (
        Seq::new(
            n,
            |i: int| bits_le(q.0[i / (USABLE_BITS as int)], USABLE_BITS as nat)[i % (
            USABLE_BITS as int)],
        ),
        q.1,
        q.2,
    )
}

/// The Poseidon sponge: round parameters, a state of `rate + capacity` field
/// elements, and the absorb/squeeze mode with its cursor.
#[derive(Debug)]
pub struct PoseidonSponge {
    /// The round parameters.
    pub params: PoseidonParameters,
    /// The sponge state.
    pub state: Vec<Felt>,
    /// How many state elements take input and give output.
    pub rate: usize,
    /// How many state elements are hidden, as the security margin.
    pub capacity: usize,
    /// Current direction and cursor.
    pub mode: PoseidonSpongeMode,
}

impl PoseidonSponge {
    /// The full state width.
    pub open spec fn width(self) -> int {
        self.rate + self.capacity
    }

    /// Structural invariant: a nonempty rate, a reduced state of the right
    /// width, parameters shaped for that width, and a cursor within the rate.
    pub open spec fn wf(self) -> bool {
        &&& self.rate >= 1
        &&& self.rate + self.capacity <= usize::MAX
        &&& self.state@.len() == self.width()
        &&& all_wf(self.state@)
        &&& self.params.wf(self.width())
        &&& match self.mode {
            PoseidonSpongeMode::Absorbing { next_absorb_index } => next_absorb_index <= self.rate,
            PoseidonSpongeMode::Squeezing { next_squeeze_index } => next_squeeze_index
                <= self.rate,
        }
    }

    /// The residues the state stands for.
    pub open spec fn vstate(self) -> Seq<int> {
        vals(self.state@)
    }

    /// A fresh sponge at any rate and capacity: all-zero state, absorbing
    /// from index 0. The parameters must be shaped for the chosen width.
    pub fn with_rate(params: PoseidonParameters, rate: usize, capacity: usize) -> (r:
        PoseidonSponge)
        requires
            rate >= 1,
            rate + capacity <= usize::MAX,
            params.wf(rate + capacity),
        ensures
            r.wf(),
            r.params == params,
            r.rate == rate,
            r.capacity == capacity,
            r.vstate() == Seq::new((rate + capacity) as nat, |i: int| 0int),
            r.mode == (PoseidonSpongeMode::Absorbing { next_absorb_index: 0 }),
    {
        let width = rate + capacity;
        let mut state: Vec<Felt> = Vec::new();
        let mut i: usize = 0;
        while i < width
            invariant
                i <= width,
                state@.len() == i,
                forall|t: int| 0 <= t < i ==> (#[trigger] state@[t]).value == 0,
            decreases width - i,
        {
            state.push(felt_zero());
            i = i + 1;
        }
        let r = PoseidonSponge {
            params,
            state,
            rate,
            capacity,
            mode: PoseidonSpongeMode::Absorbing { next_absorb_index: 0 },
        };
        proof {
            assert(r.vstate() =~= Seq::new((rate + capacity) as nat, |i: int| 0int));
        }
        r
    }

    /// A fresh sponge in the reference configuration: rate 2 and capacity 1,
    /// a deliberate fixed choice matching the parameter tables this sponge is
    /// normally instantiated with.
    pub fn new(params: PoseidonParameters) -> (r: PoseidonSponge)
        requires
            params.wf(3),
        ensures
            r.wf(),
            r.params == params,
            r.rate == 2,
            r.capacity == 1,
            r.vstate() == Seq::new(3, |i: int| 0int),
            r.mode == (PoseidonSpongeMode::Absorbing { next_absorb_index: 0 }),
    {
        let r = PoseidonSponge::with_rate(params, 2, 1);
        proof {
            assert(r.vstate() =~= Seq::new(3, |i: int| 0int));
        }
        r
    }

    /// One add-round-key step on a scratch state.
    fn apply_ark(&self, state: &mut Vec<Felt>, round_number: usize)
        requires
            self.params.wf(old(state)@.len() as int),
            all_wf(old(state)@),
            round_number < self.params.rounds(),
        ensures
            final(state)@.len() == old(state)@.len(),
            all_wf(final(state)@),
            vals(final(state)@) == spec_ark_step(self.params, vals(old(state)@), round_number as int),
    {
        let n = state.len();
        let mut i: usize = 0;
        while i < n
            invariant
                i <= n,
                n == state@.len(),
                self.params.wf(n as int),
                round_number < self.params.rounds(),
                all_wf(state@),
                forall|t: int|
                    0 <= t < i ==> (#[trigger] state@[t]).val() == add_f(
                        old(state)@[t].val(),
                        self.params.ark_at(round_number as int, t),
                    ),
                forall|t: int| i <= t < n ==> state@[t] == old(state)@[t],
            decreases n - i,
        {
            let k = felt_add(state[i], self.params.ark[round_number][i]);
            state[i] = k;
            i = i + 1;
        }
        proof {
            assert(vals(state@) =~= spec_ark_step(self.params, vals(old(state)@), round_number as int));
        }
    }

    /// One S-box step on a scratch state: every element in a full round, the
    /// last element only in a partial round.
    fn apply_s_box(&self, state: &mut Vec<Felt>, is_full_round: bool)
        requires
            self.params.wf(old(state)@.len() as int),
            all_wf(old(state)@),
            old(state)@.len() >= 1,
        ensures
            final(state)@.len() == old(state)@.len(),
            all_wf(final(state)@),
            vals(final(state)@) == spec_sbox(self.params, vals(old(state)@), is_full_round),
    {
        let n = state.len();
        if is_full_round {
            let mut i: usize = 0;
            while i < n
                invariant
                    i <= n,
                    n == state@.len(),
                    self.params.wf(n as int),
                    all_wf(state@),
                    forall|t: int|
                        0 <= t < i ==> (#[trigger] state@[t]).val() == pow_f(
                            old(state)@[t].val(),
                            self.params.alpha as nat,
                        ),
                    forall|t: int| i <= t < n ==> state@[t] == old(state)@[t],
                decreases n - i,
            {
                let k = felt_pow(state[i], self.params.alpha);
                state[i] = k;
                i = i + 1;
            }
            proof {
                assert(vals(state@) =~= spec_sbox(self.params, vals(old(state)@), true));
            }
        } else {
            let last = n - 1;
            let k = felt_pow(state[last], self.params.alpha);
            state[last] = k;
            proof {
                assert(vals(state@) =~= spec_sbox(self.params, vals(old(state)@), false));
            }
        }
    }

    /// The mixing step on a scratch state: multiply by the mixing matrix,
    /// computing every row from the unchanged input state.
    fn apply_mds(&self, state: &mut Vec<Felt>)
        requires
            self.params.wf(old(state)@.len() as int),
            all_wf(old(state)@),
        ensures
            final(state)@.len() == old(state)@.len(),
            all_wf(final(state)@),
            vals(final(state)@) == spec_mds(self.params, vals(old(state)@)),
    {
        let n = state.len();
        let mut new_state: Vec<Felt> = Vec::new();
        let mut i: usize = 0;
        while i < n
            invariant
                i <= n,
                n == state@.len(),
                state@ == old(state)@,
                self.params.wf(n as int),
                all_wf(state@),
                new_state@.len() == i,
                all_wf(new_state@),
                forall|t: int|
                    0 <= t < i ==> (#[trigger] new_state@[t]).val() == dot_mod(
                        self.params,
                        vals(state@),
                        t,
                        n as nat,
                    ),
            decreases n - i,
        {
            let mut cur = felt_zero();
            let mut j: usize = 0;
            while j < n
                invariant
                    j <= n,
                    i < n,
                    n == state@.len(),
                    state@ == old(state)@,
                    self.params.wf(n as int),
                    all_wf(state@),
                    cur.wf(),
                    cur.val() == dot_mod(self.params, vals(state@), i as int, j as nat),
                decreases n - j,
            {
                proof {
                    assert(vals(state@)[j as int] == state@[j as int].val());
                }
                let term = felt_mul(state[j], self.params.mds[i][j]);
                cur = felt_add(cur, term);
                j = j + 1;
            }
            new_state.push(cur);
            i = i + 1;
        }
        *state = new_state;
        proof {
            assert(vals(state@) =~= spec_mds(self.params, vals(old(state)@)));
        }
    }

    /// The full permutation, in place: runs all rounds on a scratch copy of
    /// the state and commits it only after every round has been applied.
    fn permute(&mut self)
        requires
            old(self).wf(),
        ensures
            final(self).wf(),
            final(self).params == old(self).params,
            final(self).rate == old(self).rate,
            final(self).capacity == old(self).capacity,
            final(self).mode == old(self).mode,
            final(self).vstate() == spec_permute(old(self).params, old(self).vstate()),
    {
        let full_rounds_over_2 = self.params.full_rounds / 2;
        let total = self.params.full_rounds + self.params.partial_rounds;
        let width = self.state.len();
        let mut state: Vec<Felt> = Vec::new();
        let mut i: usize = 0;
        while i < width
            invariant
                i <= width,
                width == self.state@.len(),
                *self == *old(self),
                state@.len() == i,
                forall|t: int| 0 <= t < i ==> state@[t] == self.state@[t],
            decreases width - i,
        {
            state.push(self.state[i]);
            i = i + 1;
        }
        proof {
            assert(state@ =~= self.state@);
        }
        let mut r: u32 = 0;
        while r < total
            invariant
                r <= total,
                *self == *old(self),
                old(self).wf(),
                total == old(self).params.rounds(),
                full_rounds_over_2 == old(self).params.half_full(),
                state@.len() == old(self).state@.len(),
                all_wf(state@),
                vals(state@) == spec_permute_n(self.params, old(self).vstate(), r as nat),
            decreases total - r,
        {
            let is_full = r < full_rounds_over_2 || r >= full_rounds_over_2
                + self.params.partial_rounds;
            self.apply_ark(&mut state, r as usize);
            self.apply_s_box(&mut state, is_full);
            self.apply_mds(&mut state);
            r = r + 1;
        }
        self.state = state;
    }

    /// The absorb loop: adds `elements[offset..]` into the rate portion from
    /// `rate_start_index`, permuting whenever the rate fills up.
    fn absorb_internal(&mut self, rate_start_index: usize, elements: &Vec<Felt>, offset: usize)
        requires
            old(self).wf(),
            rate_start_index < old(self).rate,
            offset <= elements@.len(),
            all_wf(elements@),
        ensures
            final(self).wf(),
            final(self).params == old(self).params,
            final(self).rate == old(self).rate,
            final(self).capacity == old(self).capacity,
            (final(self).vstate(), final(self).mode) == spec_absorb_internal(
                old(self).params,
                old(self).vstate(),
                old(self).rate as int,
                rate_start_index as int,
                vals(elements@.skip(offset as int)),
            ),
        decreases elements@.len() - offset,
    {
        let remaining = elements.len() - offset;
        let room = self.rate - rate_start_index;
        let num = if remaining <= room {
            remaining
        } else {
            room
        };
        let mut i: usize = 0;
        while i < num
            invariant
                i <= num,
                num <= old(self).rate - rate_start_index,
                offset + num <= elements@.len(),
                elements@.len() <= usize::MAX,
                all_wf(elements@),
                old(self).wf(),
                rate_start_index < old(self).rate,
                self.params == old(self).params,
                self.rate == old(self).rate,
                self.capacity == old(self).capacity,
                self.mode == old(self).mode,
                self.state@.len() == old(self).state@.len(),
                all_wf(self.state@),
                forall|t: int|
                    0 <= t < self.state@.len() && !(rate_start_index <= t < rate_start_index + i)
                        ==> self.state@[t] == old(self).state@[t],
                forall|t: int|
                    rate_start_index <= t < rate_start_index + i ==> (#[trigger] self.state@[t]).val()
                        == add_f(
                        old(self).state@[t].val(),
                        elements@[offset + t - rate_start_index].val(),
                    ),
            decreases num - i,
        {
            let k = felt_add(self.state[rate_start_index + i], elements[offset + i]);
            self.state[rate_start_index + i] = k;
            i = i + 1;
        }
        let ghost s0 = old(self).vstate();
        let ghost elemsv = vals(elements@.skip(offset as int));
        if remaining <= room {
            proof {
                assert(vals(self.state@) =~= add_block(s0, rate_start_index as int, elemsv));
            }
            self.mode = PoseidonSpongeMode::Absorbing {
                next_absorb_index: rate_start_index + remaining,
            };
        } else {
            proof {
                assert(vals(self.state@) =~= add_block(
                    s0,
                    rate_start_index as int,
                    elemsv.take(old(self).rate - rate_start_index),
                ));
            }
            self.permute();
            self.absorb_internal(0, elements, offset + num);
            proof {
                assert(vals(elements@.skip((offset + num) as int)) =~= elemsv.skip(
                    old(self).rate - rate_start_index,
                ));
            }
        }
    }

    /// The squeeze loop: appends `remaining` state elements to `output`,
    /// reading the rate portion from `rate_start_index` and permuting between
    /// chunks — except when the output remaining at a chunk boundary is
    /// exactly one full rate block.
    fn squeeze_internal(&mut self, rate_start_index: usize, remaining: usize, output: &mut Vec<Felt>)
        requires
            old(self).wf(),
            rate_start_index < old(self).rate,
            all_wf(old(output)@),
        ensures
            final(self).wf(),
            final(self).params == old(self).params,
            final(self).rate == old(self).rate,
            final(self).capacity == old(self).capacity,
            all_wf(final(output)@),
            final(output)@.len() == old(output)@.len() + remaining,
            vals(final(output)@) == vals(old(output)@) + spec_squeeze_internal(
                old(self).params,
                old(self).vstate(),
                old(self).rate as int,
                rate_start_index as int,
                remaining as nat,
            ).0,
            final(self).vstate() == spec_squeeze_internal(
                old(self).params,
                old(self).vstate(),
                old(self).rate as int,
                rate_start_index as int,
                remaining as nat,
            ).1,
            final(self).mode == spec_squeeze_internal(
                old(self).params,
                old(self).vstate(),
                old(self).rate as int,
                rate_start_index as int,
                remaining as nat,
            ).2,
        decreases remaining,
    {
        let room = self.rate - rate_start_index;
        let num = if remaining <= room {
            remaining
        } else {
            room
        };
        let mut i: usize = 0;
        while i < num
            invariant
                i <= num,
                num <= old(self).rate - rate_start_index,
                *self == *old(self),
                old(self).wf(),
                rate_start_index < old(self).rate,
                all_wf(output@),
                output@.len() == old(output)@.len() + i,
                forall|t: int| 0 <= t < old(output)@.len() ==> output@[t] == old(output)@[t],
                forall|t: int|
                    old(output)@.len() <= t < output@.len() ==> (#[trigger] output@[t])
                        == old(self).state@[rate_start_index + (t - old(output)@.len())],
            decreases num - i,
        {
            output.push(self.state[rate_start_index + i]);
            i = i + 1;
        }
        let ghost s0 = old(self).vstate();
        let ghost q = spec_squeeze_internal(
            old(self).params,
            s0,
            old(self).rate as int,
            rate_start_index as int,
            remaining as nat,
        );
        if remaining <= room {
            self.mode = PoseidonSpongeMode::Squeezing {
                next_squeeze_index: rate_start_index + remaining,
            };
            proof {
                assert(vals(output@) =~= vals(old(output)@) + q.0);
            }
        } else {
            let ghost mid_out = output@;
            proof {
                assert(vals(mid_out) =~= vals(old(output)@) + s0.subrange(
                    rate_start_index as int,
                    old(self).rate as int,
                ));
            }
            if remaining != self.rate {
                self.permute();
            }
            self.squeeze_internal(0, remaining - num, output);
            proof {
                let chunk = s0.subrange(rate_start_index as int, old(self).rate as int);
                let rest = spec_squeeze_internal(
                    old(self).params,
                    if remaining == old(self).rate {
                        s0
                    } else {
                        spec_permute(old(self).params, s0)
                    },
                    old(self).rate as int,
                    0,
                    (remaining - num) as nat,
                );
                assert(q.0 =~= chunk + rest.0);
                assert(vals(output@) =~= (vals(old(output)@) + chunk) + rest.0);
                assert(vals(old(output)@) + q.0 =~= (vals(old(output)@) + chunk) + rest.0);
            }
        }
    }

    /// Absorbs the given field elements. An empty input changes nothing; in
    /// every other case the sponge follows the absorb transition of the state
    /// machine: a permutation first when the rate is already full or when the
    /// sponge was squeezing, then the chunked fill.
    pub fn absorb(&mut self, elements: &Vec<Felt>)
        requires
            old(self).wf(),
            all_wf(elements@),
        ensures
            final(self).wf(),
            final(self).params == old(self).params,
            final(self).rate == old(self).rate,
            final(self).capacity == old(self).capacity,
            (final(self).vstate(), final(self).mode) == spec_absorb(
                old(self).params,
                old(self).vstate(),
                old(self).rate as int,
                old(self).mode,
                vals(elements@),
            ),
            elements@.len() == 0 ==> *final(self) == *old(self),
    {
        if elements.len() == 0 {
            return ;
        }
        proof {
            assert(elements@.skip(0) =~= elements@);
        }
        match self.mode {
            PoseidonSpongeMode::Absorbing { next_absorb_index } => {
                let mut absorb_index = next_absorb_index;
                if absorb_index == self.rate {
                    self.permute();
                    absorb_index = 0;
                }
                self.absorb_internal(absorb_index, elements, 0);
            },
            PoseidonSpongeMode::Squeezing { .. } => {
                self.permute();
                self.absorb_internal(0, elements, 0);
            },
        }
    }

    /// Squeezes exactly `num_elements` field elements, following the squeeze
    /// transition of the state machine: a permutation first when the sponge
    /// was absorbing or the rate is drained, then the chunked read.
    pub fn squeeze_field_elements(&mut self, num_elements: usize) -> (r: Vec<Felt>)
        requires
            old(self).wf(),
        ensures
            final(self).wf(),
            final(self).params == old(self).params,
            final(self).rate == old(self).rate,
            final(self).capacity == old(self).capacity,
            r@.len() == num_elements,
            all_wf(r@),
            vals(r@) == spec_squeeze(
                old(self).params,
                old(self).vstate(),
                old(self).rate as int,
                old(self).mode,
                num_elements as nat,
            ).0,
            final(self).vstate() == spec_squeeze(
                old(self).params,
                old(self).vstate(),
                old(self).rate as int,
                old(self).mode,
                num_elements as nat,
            ).1,
            final(self).mode == spec_squeeze(
                old(self).params,
                old(self).vstate(),
                old(self).rate as int,
                old(self).mode,
                num_elements as nat,
            ).2,
    {
        let mut output: Vec<Felt> = Vec::new();
        match self.mode {
            PoseidonSpongeMode::Absorbing { .. } => {
                self.permute();
                self.squeeze_internal(0, num_elements, &mut output);
            },
            PoseidonSpongeMode::Squeezing { next_squeeze_index } => {
                let mut squeeze_index = next_squeeze_index;
                if squeeze_index == self.rate {
                    self.permute();
                    squeeze_index = 0;
                }
                self.squeeze_internal(squeeze_index, num_elements, &mut output);
            },
        }
        proof {
            assert(vals(output@) =~= spec_squeeze(
                old(self).params,
                old(self).vstate(),
                old(self).rate as int,
                old(self).mode,
                num_elements as nat,
            ).0);
        }
        output
    }

    /// Squeezes exactly `num_bytes` bytes: squeezes enough field elements to
    /// cover them, takes the low-order bytes of each element in order, and
    /// truncates to the requested length.
    pub fn squeeze_bytes(&mut self, num_bytes: usize) -> (r: Vec<u8>)
        requires
            old(self).wf(),
        ensures
            final(self).wf(),
            final(self).params == old(self).params,
            final(self).rate == old(self).rate,
            final(self).capacity == old(self).capacity,
            r@.len() == num_bytes,
            r@.map_values(|b: u8| b as int) == spec_squeeze_bytes(
                old(self).params,
                old(self).vstate(),
                old(self).rate as int,
                old(self).mode,
                num_bytes as nat,
            ).0,
            final(self).vstate() == spec_squeeze_bytes(
                old(self).params,
                old(self).vstate(),
                old(self).rate as int,
                old(self).mode,
                num_bytes as nat,
            ).1,
            final(self).mode == spec_squeeze_bytes(
                old(self).params,
                old(self).vstate(),
                old(self).rate as int,
                old(self).mode,
                num_bytes as nat,
            ).2,
    {
        proof {
            if num_bytes >= 1 {
                lemma_div_is_strictly_smaller(num_bytes as int, USABLE_BYTES as int);
            }
        }
        let q = num_bytes / USABLE_BYTES;
        let num_elements = if num_bytes % USABLE_BYTES == 0 {
            q
        } else {
            q + 1
        };
        let src_elements = self.squeeze_field_elements(num_elements);
        proof {
            lemma_fundamental_div_mod(num_bytes as int, USABLE_BYTES as int);
        }
        let mut bytes: Vec<u8> = Vec::new();
        let mut e_idx: usize = 0;
        while e_idx < num_elements
            invariant
                e_idx <= num_elements,
                src_elements@.len() == num_elements,
                all_wf(src_elements@),
                num_elements <= (num_bytes as int) / (USABLE_BYTES as int) + 1,
                (USABLE_BYTES as int) * num_elements >= num_bytes,
                bytes@.len() == if num_bytes <= (USABLE_BYTES as int) * e_idx {
                    num_bytes as int
                } else {
                    (USABLE_BYTES as int) * e_idx
                },
                forall|t: int|
                    0 <= t < bytes@.len() ==> (#[trigger] bytes@[t]) as int == bytes_le(
                        src_elements@[t / (USABLE_BYTES as int)].val(),
                        USABLE_BYTES as nat,
                    )[t % (USABLE_BYTES as int)],
            decreases num_elements - e_idx,
        {
            let chunk = felt_bytes_le(src_elements[e_idx], USABLE_BYTES);
            let mut j: usize = 0;
            while j < USABLE_BYTES && bytes.len() < num_bytes
                invariant
                    j <= USABLE_BYTES,
                    e_idx < num_elements,
                    src_elements@.len() == num_elements,
                    chunk@.len() == USABLE_BYTES,
                    chunk@.map_values(|b: u8| b as int) == bytes_le(
                        src_elements@[e_idx as int].val(),
                        USABLE_BYTES as nat,
                    ),
                    bytes@.len() == if num_bytes <= (USABLE_BYTES as int) * e_idx + j {
                        num_bytes as int
                    } else {
                        (USABLE_BYTES as int) * e_idx + j
                    },
                    forall|t: int|
                        0 <= t < bytes@.len() ==> (#[trigger] bytes@[t]) as int == bytes_le(
                            src_elements@[t / (USABLE_BYTES as int)].val(),
                            USABLE_BYTES as nat,
                        )[t % (USABLE_BYTES as int)],
                decreases USABLE_BYTES - j,
            {
                proof {
                    lemma_fundamental_div_mod_converse_div(
                        (USABLE_BYTES as int) * e_idx + j,
                        USABLE_BYTES as int,
                        e_idx as int,
                        j as int,
                    );
                    lemma_fundamental_div_mod_converse_mod(
                        (USABLE_BYTES as int) * e_idx + j,
                        USABLE_BYTES as int,
                        e_idx as int,
                        j as int,
                    );
                }
                bytes.push(chunk[j]);
                j = j + 1;
            }
            e_idx = e_idx + 1;
        }
        proof {
            assert(bytes@.map_values(|b: u8| b as int) =~= spec_squeeze_bytes(
                old(self).params,
                old(self).vstate(),
                old(self).rate as int,
                old(self).mode,
                num_bytes as nat,
            ).0);
        }
        bytes
    }

    /// Squeezes exactly `num_bits` bits: squeezes enough field elements to
    /// cover them, takes the low-order bits of each element in order, and
    /// truncates to the requested length.
    pub fn squeeze_bits(&mut self, num_bits: usize) -> (r: Vec<bool>)
        requires
            old(self).wf(),
        ensures
            final(self).wf(),
            final(self).params == old(self).params,
            final(self).rate == old(self).rate,
            final(self).capacity == old(self).capacity,
            r@.len() == num_bits,
            r@ == spec_squeeze_bits(
                old(self).params,
                old(self).vstate(),
                old(self).rate as int,
                old(self).mode,
                num_bits as nat,
            ).0,
            final(self).vstate() == spec_squeeze_bits(
                old(self).params,
                old(self).vstate(),
                old(self).rate as int,
                old(self).mode,
                num_bits as nat,
            ).1,
            final(self).mode == spec_squeeze_bits(
                old(self).params,
                old(self).vstate(),
                old(self).rate as int,
                old(self).mode,
                num_bits as nat,
            ).2,
    {
        proof {
            if num_bits >= 1 {
                lemma_div_is_strictly_smaller(num_bits as int, USABLE_BITS as int);
            }
        }
        let q = num_bits / USABLE_BITS;
        let num_elements = if num_bits % USABLE_BITS == 0 {
            q
        } else {
            q + 1
        };
        let src_elements = self.squeeze_field_elements(num_elements);
        proof {
            lemma_fundamental_div_mod(num_bits as int, USABLE_BITS as int);
        }
        let mut bits: Vec<bool> = Vec::new();
        let mut e_idx: usize = 0;
        while e_idx < num_elements
            invariant
                e_idx <= num_elements,
                src_elements@.len() == num_elements,
                all_wf(src_elements@),
                num_elements <= (num_bits as int) / (USABLE_BITS as int) + 1,
                (USABLE_BITS as int) * num_elements >= num_bits,
                bits@.len() == if num_bits <= (USABLE_BITS as int) * e_idx {
                    num_bits as int
                } else {
                    (USABLE_BITS as int) * e_idx
                },
                forall|t: int|
                    0 <= t < bits@.len() ==> (#[trigger] bits@[t]) == bits_le(
                        src_elements@[t / (USABLE_BITS as int)].val(),
                        USABLE_BITS as nat,
                    )[t % (USABLE_BITS as int)],
            decreases num_elements - e_idx,
        {
            let chunk = felt_bits_le(src_elements[e_idx], USABLE_BITS);
            let mut j: usize = 0;
            while j < USABLE_BITS && bits.len() < num_bits
                invariant
                    j <= USABLE_BITS,
                    e_idx < num_elements,
                    src_elements@.len() == num_elements,
                    chunk@.len() == USABLE_BITS,
                    chunk@ == bits_le(src_elements@[e_idx as int].val(), USABLE_BITS as nat),
                    bits@.len() == if num_bits <= (USABLE_BITS as int) * e_idx + j {
                        num_bits as int
                    } else {
                        (USABLE_BITS as int) * e_idx + j
                    },
                    forall|t: int|
                        0 <= t < bits@.len() ==> (#[trigger] bits@[t]) == bits_le(
                            src_elements@[t / (USABLE_BITS as int)].val(),
                            USABLE_BITS as nat,
                        )[t % (USABLE_BITS as int)],
                decreases USABLE_BITS - j,
            {
                proof {
                    lemma_fundamental_div_mod_converse_div(
                        (USABLE_BITS as int) * e_idx + j,
                        USABLE_BITS as int,
                        e_idx as int,
                        j as int,
                    );
                    lemma_fundamental_div_mod_converse_mod(
                        (USABLE_BITS as int) * e_idx + j,
                        USABLE_BITS as int,
                        e_idx as int,
                        j as int,
                    );
                }
                bits.push(chunk[j]);
                j = j + 1;
            }
            e_idx = e_idx + 1;
        }
        proof {
            assert(bits@ =~= spec_squeeze_bits(
                old(self).params,
                old(self).vstate(),
                old(self).rate as int,
                old(self).mode,
                num_bits as nat,
            ).0);
        }
        bits
    }
}

} // verus!
