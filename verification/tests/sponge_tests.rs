use poseidon_sponge::field::felt_add;
use poseidon_sponge::field::felt_bits_le;
use poseidon_sponge::field::felt_bytes_le;
use poseidon_sponge::field::felt_mul;
use poseidon_sponge::field::felt_new;
use poseidon_sponge::field::felt_pow;
use poseidon_sponge::field::Felt;
use poseidon_sponge::field::P;
use poseidon_sponge::params::PoseidonParameters;
use poseidon_sponge::sponge::PoseidonSponge;
use poseidon_sponge::sponge::PoseidonSpongeMode;

/// Parameters whose permutation is the identity map: S-box exponent 1, zero
/// round keys, identity mixing matrix. They make expected outputs easy to
/// compute by hand.
fn identity_params() -> PoseidonParameters {
    let full_rounds: u32 = 4;
    let partial_rounds: u32 = 2;
    let mut ark: Vec<Vec<Felt>> = Vec::new();
    let mut r: usize = 0;
    while r < 6 {
        ark.push(vec![felt_new(0), felt_new(0), felt_new(0)]);
        r += 1;
    }
    let mds: Vec<Vec<Felt>> = vec![
        vec![felt_new(1), felt_new(0), felt_new(0)],
        vec![felt_new(0), felt_new(1), felt_new(0)],
        vec![felt_new(0), felt_new(0), felt_new(1)],
    ];
    PoseidonParameters { full_rounds, partial_rounds, alpha: 1, ark, mds }
}

/// Arbitrary nontrivial parameters: S-box exponent 5, dense round keys and
/// mixing matrix. Not a secure instance, but a fully general one.
fn test_params() -> PoseidonParameters {
    let full_rounds: u32 = 8;
    let partial_rounds: u32 = 3;
    let mut ark: Vec<Vec<Felt>> = Vec::new();
    let mut r: u64 = 0;
    while r < 11 {
        let mut row: Vec<Felt> = Vec::new();
        let mut i: u64 = 0;
        while i < 3 {
            row.push(felt_new(r * 1_000_003 + i * 97 + 5));
            i += 1;
        }
        ark.push(row);
        r += 1;
    }
    let mut mds: Vec<Vec<Felt>> = Vec::new();
    let mut i: u64 = 0;
    while i < 3 {
        let mut row: Vec<Felt> = Vec::new();
        let mut j: u64 = 0;
        while j < 3 {
            row.push(felt_new(i * 31 + j * 7 + 2));
            j += 1;
        }
        mds.push(row);
        i += 1;
    }
    PoseidonParameters { full_rounds, partial_rounds, alpha: 5, ark, mds }
}

fn felts(values: &[u64]) -> Vec<Felt> {
    let mut out: Vec<Felt> = Vec::new();
    for v in values {
        out.push(felt_new(*v));
    }
    out
}

fn values(elems: &[Felt]) -> Vec<u64> {
    let mut out: Vec<u64> = Vec::new();
    for e in elems {
        out.push(e.value);
    }
    out
}

#[test]
fn field_add_wraps_at_modulus() {
    let r = felt_add(felt_new(P - 1), felt_new(2));
    assert_eq!(r.value, 1);
}

#[test]
fn field_mul_exact_values() {
    assert_eq!(felt_mul(felt_new(3), felt_new(7)).value, 21);
    // (P - 1)^2 = 1 modulo P
    assert_eq!(felt_mul(felt_new(P - 1), felt_new(P - 1)).value, 1);
}

#[test]
fn field_pow_exact_values() {
    assert_eq!(felt_pow(felt_new(2), 10).value, 1024);
    assert_eq!(felt_pow(felt_new(5), 0).value, 1);
    assert_eq!(felt_pow(felt_new(0), 3).value, 0);
}

#[test]
fn field_new_reduces() {
    assert_eq!(felt_new(P).value, 0);
    assert_eq!(felt_new(P - 1).value, P - 1);
}

#[test]
fn bytes_le_exact() {
    let f = felt_new(0x0102030405060708);
    let bytes = felt_bytes_le(f, 7);
    assert_eq!(bytes, vec![0x08, 0x07, 0x06, 0x05, 0x04, 0x03, 0x02]);
}

#[test]
fn bits_le_exact() {
    let f = felt_new(5);
    let bits = felt_bits_le(f, 4);
    assert_eq!(bits, vec![true, false, true, false]);
}

#[test]
fn absorb_then_squeeze_identity_params() {
    let mut sponge = PoseidonSponge::new(identity_params());
    sponge.absorb(&felts(&[5, 7]));
    let out = sponge.squeeze_field_elements(2);
    assert_eq!(values(&out), vec![5, 7]);
}

#[test]
fn absorb_accumulates_at_cursor() {
    let mut sponge = PoseidonSponge::new(identity_params());
    sponge.absorb(&felts(&[5]));
    sponge.absorb(&felts(&[7]));
    let out = sponge.squeeze_field_elements(2);
    assert_eq!(values(&out), vec![5, 7]);
}

#[test]
fn absorb_after_squeeze_adds_into_fresh_block() {
    let mut sponge = PoseidonSponge::new(identity_params());
    sponge.absorb(&felts(&[5, 7]));
    let first = sponge.squeeze_field_elements(1);
    assert_eq!(values(&first), vec![5]);
    // The sponge was squeezing: one permutation (here the identity), then the
    // new element is added into index 0.
    sponge.absorb(&felts(&[3]));
    let second = sponge.squeeze_field_elements(2);
    assert_eq!(values(&second), vec![8, 7]);
}

#[test]
fn absorb_longer_than_rate_chunks() {
    let mut sponge = PoseidonSponge::new(identity_params());
    sponge.absorb(&felts(&[1, 2, 3, 4, 5]));
    let out = sponge.squeeze_field_elements(2);
    // Chunks [1,2], [3,4], [5] land on an identity permutation, so the rate
    // slots accumulate 1+3+5 and 2+4.
    assert_eq!(values(&out), vec![9, 6]);
}

#[test]
fn squeeze_longer_than_rate_repeats_identity_state() {
    let mut sponge = PoseidonSponge::new(identity_params());
    sponge.absorb(&felts(&[4, 11]));
    let out = sponge.squeeze_field_elements(5);
    assert_eq!(values(&out), vec![4, 11, 4, 11, 4]);
}

#[test]
fn squeeze_bytes_identity_params_exact() {
    let mut sponge = PoseidonSponge::new(identity_params());
    sponge.absorb(&felts(&[0x0102030405060708, 0]));
    let bytes = sponge.squeeze_bytes(7);
    assert_eq!(bytes, vec![0x08, 0x07, 0x06, 0x05, 0x04, 0x03, 0x02]);
}

#[test]
fn squeeze_zero_lengths() {
    let mut sponge = PoseidonSponge::new(test_params());
    sponge.absorb(&felts(&[1, 2, 3]));
    assert_eq!(sponge.squeeze_field_elements(0).len(), 0);
    assert_eq!(sponge.squeeze_bytes(0).len(), 0);
    assert_eq!(sponge.squeeze_bits(0).len(), 0);
}

#[test]
fn determinism_same_call_sequence() {
    let mut a = PoseidonSponge::new(test_params());
    let mut b = PoseidonSponge::new(test_params());
    a.absorb(&felts(&[10, 20, 30]));
    b.absorb(&felts(&[10, 20, 30]));
    assert_eq!(values(&a.squeeze_field_elements(4)), values(&b.squeeze_field_elements(4)));
    a.absorb(&felts(&[7]));
    b.absorb(&felts(&[7]));
    assert_eq!(a.squeeze_bytes(11), b.squeeze_bytes(11));
    assert_eq!(a.squeeze_bits(70), b.squeeze_bits(70));
}

#[test]
fn canonical_two_phase_scenario() {
    // The canonical regression sequence: absorb 256 elements, squeeze one,
    // absorb 24 more (eight 3-byte groups), squeeze one more; a twin sponge
    // fed the same calls must reproduce both outputs bit for bit.
    let mut a = PoseidonSponge::new(test_params());
    let mut b = PoseidonSponge::new(test_params());

    let mut first: Vec<u64> = Vec::new();
    let mut i: u64 = 0;
    while i < 256 {
        first.push(i * 123_456_789 + 17);
        i += 1;
    }
    let first = felts(&first);
    a.absorb(&first);
    b.absorb(&first);
    let a1 = a.squeeze_field_elements(1);
    let b1 = b.squeeze_field_elements(1);
    assert_eq!(values(&a1), values(&b1));

    let mut second: Vec<u64> = Vec::new();
    let mut i: u64 = 0;
    while i < 24 {
        second.push((i % 8) + (i / 8));
        i += 1;
    }
    let second = felts(&second);
    a.absorb(&second);
    b.absorb(&second);
    let a2 = a.squeeze_field_elements(1);
    let b2 = b.squeeze_field_elements(1);
    assert_eq!(values(&a2), values(&b2));
    // The two phases land on different states.
    assert_ne!(values(&a1), values(&a2));
}

#[test]
fn rate_boundary_exactly_one_permutation() {
    // Squeezing rate elements and then one more must equal squeezing
    // rate + 1 elements in one call: the boundary inserts exactly one
    // permutation, neither zero nor two.
    let mut a = PoseidonSponge::new(test_params());
    let mut b = PoseidonSponge::new(test_params());
    a.absorb(&felts(&[42, 43]));
    b.absorb(&felts(&[42, 43]));
    let mut split = values(&a.squeeze_field_elements(2));
    split.extend(values(&a.squeeze_field_elements(1)));
    let joined = values(&b.squeeze_field_elements(3));
    assert_eq!(split, joined);
}

#[test]
fn mode_switch_interleaving_consistent() {
    let mut a = PoseidonSponge::new(test_params());
    let mut b = PoseidonSponge::new(test_params());
    a.absorb(&felts(&[1]));
    b.absorb(&felts(&[1]));
    let sa = a.squeeze_field_elements(1);
    let sb = b.squeeze_field_elements(1);
    assert_eq!(values(&sa), values(&sb));
    a.absorb(&felts(&[2]));
    b.absorb(&felts(&[2]));
    assert_eq!(values(&a.squeeze_field_elements(2)), values(&b.squeeze_field_elements(2)));
}

#[test]
fn truncation_bytes_prefix() {
    let mut a = PoseidonSponge::new(test_params());
    let mut b = PoseidonSponge::new(test_params());
    a.absorb(&felts(&[9, 8, 7]));
    b.absorb(&felts(&[9, 8, 7]));
    let short = a.squeeze_bytes(10);
    let long = b.squeeze_bytes(24);
    assert_eq!(short.len(), 10);
    assert_eq!(long.len(), 24);
    assert_eq!(short[..], long[..10]);
}

#[test]
fn truncation_bits_prefix() {
    let mut a = PoseidonSponge::new(test_params());
    let mut b = PoseidonSponge::new(test_params());
    a.absorb(&felts(&[14]));
    b.absorb(&felts(&[14]));
    let short = a.squeeze_bits(19);
    let long = b.squeeze_bits(80);
    assert_eq!(short.len(), 19);
    assert_eq!(long.len(), 80);
    assert_eq!(short[..], long[..19]);
}

#[test]
fn empty_absorb_changes_nothing() {
    let mut a = PoseidonSponge::new(test_params());
    a.absorb(&felts(&[5, 6, 7]));
    let state_before = a.state.clone();
    let mode_before = a.mode;
    a.absorb(&Vec::new());
    assert_eq!(a.state, state_before);
    assert_eq!(a.mode, mode_before);
    // A twin that never saw the empty absorb squeezes the same output.
    let mut b = PoseidonSponge::new(test_params());
    b.absorb(&felts(&[5, 6, 7]));
    assert_eq!(values(&a.squeeze_field_elements(3)), values(&b.squeeze_field_elements(3)));
}

#[test]
fn fresh_sponge_starts_absorbing_at_zero() {
    let sponge = PoseidonSponge::new(test_params());
    assert_eq!(sponge.rate, 2);
    assert_eq!(sponge.capacity, 1);
    assert_eq!(sponge.state.len(), 3);
    for e in &sponge.state {
        assert_eq!(e.value, 0);
    }
    assert_eq!(sponge.mode, PoseidonSpongeMode::Absorbing { next_absorb_index: 0 });
}

/// Identity-permutation parameters for a sponge of width 4 (rate 3,
/// capacity 1).
fn identity_params_width4() -> PoseidonParameters {
    let full_rounds: u32 = 2;
    let partial_rounds: u32 = 1;
    let mut ark: Vec<Vec<Felt>> = Vec::new();
    let mut r: usize = 0;
    while r < 3 {
        ark.push(vec![felt_new(0), felt_new(0), felt_new(0), felt_new(0)]);
        r += 1;
    }
    let mut mds: Vec<Vec<Felt>> = Vec::new();
    let mut i: usize = 0;
    while i < 4 {
        let mut row: Vec<Felt> = Vec::new();
        let mut j: usize = 0;
        while j < 4 {
            row.push(felt_new(if i == j { 1 } else { 0 }));
            j += 1;
        }
        mds.push(row);
        i += 1;
    }
    PoseidonParameters { full_rounds, partial_rounds, alpha: 1, ark, mds }
}

#[test]
fn wider_rate_supported() {
    let mut sponge = PoseidonSponge::with_rate(identity_params_width4(), 3, 1);
    assert_eq!(sponge.rate, 3);
    assert_eq!(sponge.capacity, 1);
    sponge.absorb(&felts(&[10, 20, 30, 40]));
    let out = sponge.squeeze_field_elements(3);
    // Chunks [10,20,30] and [40] on an identity permutation.
    assert_eq!(values(&out), vec![50, 20, 30]);
}
