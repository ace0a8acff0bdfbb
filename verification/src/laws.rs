//! General properties of the sponge, stated over the abstract model and
//! proved once and for all: determinism over whole call sequences, the
//! rate-boundary permutation count, the single permutation on a mode switch,
//! and truncation coherence of byte output.

use vstd::prelude::*;

verus! {

use vstd::arithmetic::div_mod::lemma_div_is_ordered;
use vstd::arithmetic::div_mod::lemma_fundamental_div_mod;
use vstd::arithmetic::div_mod::lemma_fundamental_div_mod_converse_div;
use crate::field::USABLE_BYTES;
use crate::params::PoseidonParameters;
use crate::sponge::PoseidonSpongeMode;
use crate::sponge::elems_for_bytes;
use crate::sponge::spec_absorb;
use crate::sponge::spec_absorb_internal;
use crate::sponge::spec_permute;
use crate::sponge::spec_permute_n;
use crate::sponge::spec_squeeze;
use crate::sponge::spec_squeeze_bits;
use crate::sponge::spec_squeeze_bytes;
use crate::sponge::spec_squeeze_internal;

/// One call against the sponge, in the abstract model.
pub enum SpongeCall {
    /// Absorb these residues.
    Absorb { elems: Seq<int> },
    /// Squeeze this many field elements.
    SqueezeFieldElements { n: nat },
    /// Squeeze this many bytes.
    SqueezeBytes { n: nat },
    /// Squeeze this many bits.
    SqueezeBits { n: nat },
}

/// The output one call produces, with bits read as 0/1 and an absorb
/// producing nothing.
pub open spec fn step_output(
    p: PoseidonParameters,
    s: Seq<int>,
    rate: int,
    mode: PoseidonSpongeMode,
    call: SpongeCall,
) -> Seq<int> {
    match call {
        SpongeCall::Absorb { .. } => Seq::empty(),
        SpongeCall::SqueezeFieldElements { n } => spec_squeeze(p, s, rate, mode, n).0,
        SpongeCall::SqueezeBytes { n } => spec_squeeze_bytes(p, s, rate, mode, n).0,
        SpongeCall::SqueezeBits { n } => spec_squeeze_bits(p, s, rate, mode, n).0.map(
            |i: int, b: bool|
                if b {
                    1int
                } else {
                    0int
                },
        ),
    }
}

/// The state and mode one call leaves behind.
pub open spec fn step_state(
    p: PoseidonParameters,
    s: Seq<int>,
    rate: int,
    mode: PoseidonSpongeMode,
    call: SpongeCall,
) -> (Seq<int>, PoseidonSpongeMode) {
    match call {
        SpongeCall::Absorb { elems } => spec_absorb(p, s, rate, mode, elems),
        SpongeCall::SqueezeFieldElements { n } => {
            let q = spec_squeeze(p, s, rate, mode, n);
            (q.1, q.2)
        },
        SpongeCall::SqueezeBytes { n } => {
            let q = spec_squeeze_bytes(p, s, rate, mode, n);
            (q.1, q.2)
        },
        SpongeCall::SqueezeBits { n } => {
            let q = spec_squeeze_bits(p, s, rate, mode, n);
            (q.1, q.2)
        },
    }
}

/// The outputs of a whole sequence of calls, in order.
pub open spec fn spec_run(
    p: PoseidonParameters,
    s: Seq<int>,
    rate: int,
    mode: PoseidonSpongeMode,
    calls: Seq<SpongeCall>,
) -> Seq<Seq<int>>
    decreases calls.len(),
{
    if calls.len() == 0 {
        Seq::empty()
    } else {
        let out = step_output(p, s, rate, mode, calls[0]);
        let next = step_state(p, s, rate, mode, calls[0]);
        seq![out] + spec_run(p, next.0, rate, next.1, calls.skip(1))
    }
}

/// Determinism: two sponges with identical parameters, state, and mode give
/// identical outputs on the same sequence of absorb/squeeze calls. The
/// contract of every executable operation pins its output and its next state
/// to `step_output` and `step_state`, so this carries over to two freshly
/// constructed executable sponges driven by the same calls.
pub proof fn lemma_determinism(
    p: PoseidonParameters,
    s1: Seq<int>,
    s2: Seq<int>,
    rate: int,
    m1: PoseidonSpongeMode,
    m2: PoseidonSpongeMode,
    calls: Seq<SpongeCall>,
)
    requires
        s1 == s2,
        m1 == m2,
    ensures
        spec_run(p, s1, rate, m1, calls) == spec_run(p, s2, rate, m2, calls),
{
}

/// The permutation does not change the width of the state.
pub proof fn lemma_permute_n_len(p: PoseidonParameters, s: Seq<int>, n: nat)
    requires
        s.len() >= 1,
    ensures
        spec_permute_n(p, s, n).len() == s.len(),
    decreases n,
{
    if n > 0 {
        lemma_permute_n_len(p, s, (n - 1) as nat);
        let prev = spec_permute_n(p, s, (n - 1) as nat);
        let keyed = crate::sponge::spec_ark_step(p, prev, n - 1);
        let mixed = crate::sponge::spec_sbox(p, keyed, p.is_full_round(n - 1));
        assert(keyed.len() == prev.len());
        assert(mixed.len() == prev.len());
        assert(crate::sponge::spec_round(p, prev, n - 1).len() == prev.len());
    }
}

/// Rate-boundary permutation count: from absorbing mode, squeezing exactly
/// `rate` elements applies exactly one permutation and reads the whole fresh
/// rate block; squeezing one more element afterwards applies exactly one
/// further permutation — not zero and not two — and reads its first element.
pub proof fn lemma_rate_boundary(p: PoseidonParameters, s: Seq<int>, rate: usize, idx: usize)
    requires
        1 <= rate,
        rate <= s.len(),
    ensures
        ({
            let first = spec_squeeze(
                p,
                s,
                rate as int,
                PoseidonSpongeMode::Absorbing { next_absorb_index: idx },
                rate as nat,
            );
            &&& first.0 == spec_permute(p, s).subrange(0, rate as int)
            &&& first.1 == spec_permute(p, s)
            &&& first.2 == (PoseidonSpongeMode::Squeezing { next_squeeze_index: rate })
        }),
        ({
            let first = spec_squeeze(
                p,
                s,
                rate as int,
                PoseidonSpongeMode::Absorbing { next_absorb_index: idx },
                rate as nat,
            );
            let second = spec_squeeze(p, first.1, rate as int, first.2, 1);
            &&& second.0 == seq![spec_permute(p, spec_permute(p, s))[0]]
            &&& second.1 == spec_permute(p, spec_permute(p, s))
            &&& second.2 == (PoseidonSpongeMode::Squeezing { next_squeeze_index: 1 })
        }),
{
    lemma_permute_n_len(p, s, p.rounds() as nat);
    let sp = spec_permute(p, s);
    lemma_permute_n_len(p, sp, p.rounds() as nat);
    let spp = spec_permute(p, sp);
    let second = spec_squeeze(
        p,
        sp,
        rate as int,
        PoseidonSpongeMode::Squeezing { next_squeeze_index: rate },
        1,
    );
    assert(second.0 =~= seq![spp[0]]);
}

/// Mode switch, squeezing to absorbing: absorbing a nonempty input while in
/// squeezing mode applies exactly one permutation before the fill begins,
/// whatever the squeeze cursor was.
pub proof fn lemma_mode_switch_absorb(
    p: PoseidonParameters,
    s: Seq<int>,
    rate: int,
    idx: usize,
    elems: Seq<int>,
)
    requires
        elems.len() >= 1,
    ensures
        spec_absorb(p, s, rate, (PoseidonSpongeMode::Squeezing { next_squeeze_index: idx }), elems)
            == spec_absorb_internal(p, spec_permute(p, s), rate, 0, elems),
{
}

/// Mode switch, absorbing to squeezing: squeezing while in absorbing mode
/// applies exactly one permutation before the read begins, whatever the
/// absorb cursor was.
pub proof fn lemma_mode_switch_squeeze(
    p: PoseidonParameters,
    s: Seq<int>,
    rate: int,
    idx: usize,
    n: nat,
)
    ensures
        spec_squeeze(p, s, rate, (PoseidonSpongeMode::Absorbing { next_absorb_index: idx }), n)
            == spec_squeeze_internal(p, spec_permute(p, s), rate, 0, n),
{
}

/// The squeeze loop produces exactly as many elements as were asked for.
pub proof fn lemma_squeeze_internal_len(
    p: PoseidonParameters,
    s: Seq<int>,
    rate: int,
    start: int,
    n: nat,
)
    requires
        0 <= start < rate,
        rate <= s.len(),
    ensures
        spec_squeeze_internal(p, s, rate, start, n).0.len() == n,
    decreases n,
{
    if start + n <= rate {
    } else {
        let k = rate - start;
        let s2 = if n == rate {
            s
        } else {
            spec_permute(p, s)
        };
        lemma_permute_n_len(p, s, p.rounds() as nat);
        lemma_squeeze_internal_len(p, s2, rate, 0, (n - k) as nat);
    }
}

/// Squeeze outputs are prefix-coherent from the start of a rate block: asking
/// for fewer elements gives exactly the leading part of asking for more.
pub proof fn lemma_squeeze_internal_prefix(
    p: PoseidonParameters,
    s: Seq<int>,
    rate: int,
    m1: nat,
    m2: nat,
)
    requires
        1 <= rate,
        rate <= s.len(),
        m1 <= m2,
    ensures
        spec_squeeze_internal(p, s, rate, 0, m1).0 == spec_squeeze_internal(
            p,
            s,
            rate,
            0,
            m2,
        ).0.take(m1 as int),
    decreases m1,
{
    let o1 = spec_squeeze_internal(p, s, rate, 0, m1).0;
    let o2 = spec_squeeze_internal(p, s, rate, 0, m2).0;
    lemma_squeeze_internal_len(p, s, rate, 0, m1);
    lemma_squeeze_internal_len(p, s, rate, 0, m2);
    if m2 <= rate {
        assert(o1 =~= o2.take(m1 as int));
    } else if m1 <= rate {
        assert(o1 =~= o2.take(m1 as int));
    } else {
        let s2 = spec_permute(p, s);
        lemma_permute_n_len(p, s, p.rounds() as nat);
        lemma_squeeze_internal_prefix(p, s2, rate, (m1 - rate) as nat, (m2 - rate) as nat);
        lemma_squeeze_internal_len(p, s2, rate, 0, (m1 - rate) as nat);
        lemma_squeeze_internal_len(p, s2, rate, 0, (m2 - rate) as nat);
        assert(o1 =~= o2.take(m1 as int));
    }
}

/// Covering more bytes never takes fewer field elements.
pub proof fn lemma_elems_for_bytes_monotonic(n1: nat, n2: nat)
    requires
        n1 <= n2,
    ensures
        elems_for_bytes(n1) <= elems_for_bytes(n2),
{
    let d = USABLE_BYTES as int;
    lemma_div_is_ordered(n1 as int, n2 as int, d);
    lemma_fundamental_div_mod(n1 as int, d);
    lemma_fundamental_div_mod(n2 as int, d);
}

/// An output byte index below `n` falls in an element index below the element
/// count that covers `n` bytes.
pub proof fn lemma_byte_index_in_range(i: int, n: nat)
    requires
        0 <= i < n,
    ensures
        0 <= i / (USABLE_BYTES as int) < elems_for_bytes(n),
{
    let d = USABLE_BYTES as int;
    lemma_div_is_ordered(i, n as int - 1, d);
    lemma_fundamental_div_mod(n as int, d);
    let q = n as int / d;
    let r = n as int % d;
    if r == 0 {
        lemma_fundamental_div_mod_converse_div(n as int - 1, d, q - 1, d - 1);
    } else {
        lemma_fundamental_div_mod_converse_div(n as int - 1, d, q, r - 1);
    }
}

/// Truncation coherence: squeezing `n` bytes returns exactly the leading `n`
/// bytes of squeezing `n + k` bytes from the same state — no intervening
/// absorb — whenever the next squeeze starts at a rate-block boundary: from
/// absorbing mode, or from squeezing mode with the cursor at 0 or at `rate`.
/// From a cursor strictly inside the rate block the two requests can disagree
/// on where the boundary permutation falls, and the property does not hold.
pub proof fn lemma_truncation_bytes(
    p: PoseidonParameters,
    s: Seq<int>,
    rate: usize,
    mode: PoseidonSpongeMode,
    n: nat,
    k: nat,
)
    requires
        1 <= rate,
        rate <= s.len(),
        match mode {
            PoseidonSpongeMode::Absorbing { .. } => true,
            PoseidonSpongeMode::Squeezing { next_squeeze_index } => next_squeeze_index == 0
                || next_squeeze_index == rate,
        },
    ensures
        spec_squeeze_bytes(p, s, rate as int, mode, n).0 == spec_squeeze_bytes(
            p,
            s,
            rate as int,
            mode,
            n + k,
        ).0.take(n as int),
{
    let m1 = elems_for_bytes(n);
    let m2 = elems_for_bytes(n + k);
    lemma_elems_for_bytes_monotonic(n, n + k);
    let base = match mode {
        PoseidonSpongeMode::Absorbing { .. } => spec_permute(p, s),
        PoseidonSpongeMode::Squeezing { next_squeeze_index } => if next_squeeze_index == rate {
            spec_permute(p, s)
        } else {
            s
        },
    };
    let q1 = spec_squeeze(p, s, rate as int, mode, m1);
    let q2 = spec_squeeze(p, s, rate as int, mode, m2);
    lemma_permute_n_len(p, s, p.rounds() as nat);
    lemma_squeeze_internal_prefix(p, base, rate as int, m1, m2);
    lemma_squeeze_internal_len(p, base, rate as int, 0, m1);
    lemma_squeeze_internal_len(p, base, rate as int, 0, m2);
    assert forall|j: int| 0 <= j < m1 implies q1.0[j] == q2.0[j] by {
        assert(q1.0[j] == q2.0.take(m1 as int)[j]);
    }
    let b1 = spec_squeeze_bytes(p, s, rate as int, mode, n).0;
    let b2 = spec_squeeze_bytes(p, s, rate as int, mode, n + k).0;
    assert forall|i: int| 0 <= i < n implies b1[i] == b2.take(n as int)[i] by {
        lemma_byte_index_in_range(i, n);
    }
    assert(b1 =~= b2.take(n as int));
}

} // verus!

