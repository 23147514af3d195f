use fhe_boolean::bootstrap::HardwareConfig;
use fhe_boolean::client::ClientKey;
use fhe_boolean::gates::Gate;
use fhe_boolean::lwe::Ciphertext;
use fhe_boolean::params::PACKING_FACTOR;
use fhe_boolean::server_key::{BinaryBooleanGates, BinaryBooleanGatesAssign, FpgaGates,
    PackedBinaryBooleanGates, ServerKey};

use rand::{Rng, SeedableRng};

fn hw_config() -> HardwareConfig {
    HardwareConfig {
        image: Some(b"accel.xclbin".to_vec()),
        device_index: Some(b"0".to_vec()),
    }
}

fn truth(g: Gate, a: bool, b: bool) -> bool {
    match g {
        Gate::And => a && b,
        Gate::Nand => !(a && b),
        Gate::Nor => !(a || b),
        Gate::Or => a || b,
        Gate::Xor => a != b,
        Gate::Xnor => a == b,
    }
}

fn eval_single(sk: &mut ServerKey, g: Gate, l: &Ciphertext, r: &Ciphertext) -> Ciphertext {
    match g {
        Gate::And => sk.and(l, r),
        Gate::Nand => sk.nand(l, r),
        Gate::Nor => sk.nor(l, r),
        Gate::Or => sk.or(l, r),
        Gate::Xor => sk.xor(l, r),
        Gate::Xnor => sk.xnor(l, r),
    }
}

/// Packed output length and order match the input exactly, and every element
/// agrees with the unpacked call on the same operands, for batch sizes that
/// fill one batch exactly, under-fill it, and force a batch-boundary split.
#[test]
fn packed_matches_single_across_batch_boundaries() {
    let mut rng = rand_chacha::ChaCha8Rng::seed_from_u64(1);
    let mut ck = ClientKey::new(5);
    let mut sk = ServerKey::new(&ck);
    for size in [1, PACKING_FACTOR, PACKING_FACTOR + 1] {
        let bits_l: Vec<bool> = (0..size).map(|_| rng.gen_range(0..=1) != 0).collect();
        let bits_r: Vec<bool> = (0..size).map(|_| rng.gen_range(0..=1) != 0).collect();
        let cts_l: Vec<Ciphertext> = bits_l.iter().map(|&b| ck.encrypt(b)).collect();
        let cts_r: Vec<Ciphertext> = bits_r.iter().map(|&b| ck.encrypt(b)).collect();
        for g in [Gate::And, Gate::Or, Gate::Xor] {
            let packed = match g {
                Gate::And => sk.and_packed(&cts_l, &cts_r),
                Gate::Or => sk.or_packed(&cts_l, &cts_r),
                _ => sk.xor_packed(&cts_l, &cts_r),
            };
            assert_eq!(packed.len(), size);
            for i in 0..size {
                let single = eval_single(&mut sk, g, &cts_l[i], &cts_r[i]);
                assert_eq!(ck.decrypt(&packed[i]), ck.decrypt(&single));
                assert_eq!(ck.decrypt(&packed[i]), truth(g, bits_l[i], bits_r[i]));
            }
        }
    }
}

#[test]
fn packed_matches_single_on_hardware() {
    let mut ck = ClientKey::new(13);
    let mut sk = ServerKey::new(&ck);
    sk.enable_fpga(&hw_config()).unwrap();
    let size = PACKING_FACTOR + 1;
    let bits_l: Vec<bool> = (0..size).map(|i| i % 2 == 0).collect();
    let bits_r: Vec<bool> = (0..size).map(|i| i % 3 == 0).collect();
    let cts_l: Vec<Ciphertext> = bits_l.iter().map(|&b| ck.encrypt(b)).collect();
    let cts_r: Vec<Ciphertext> = bits_r.iter().map(|&b| ck.encrypt(b)).collect();
    let packed = sk.and_packed(&cts_l, &cts_r);
    assert_eq!(packed.len(), size);
    for i in 0..size {
        assert_eq!(ck.decrypt(&packed[i]), bits_l[i] && bits_r[i]);
    }
}

#[test]
fn gates_packed_mixed_gates_and_trivial_pairs() {
    let mut ck = ClientKey::new(19);
    let mut sk = ServerKey::new(&ck);
    let gates = vec![Gate::And, Gate::Xor, Gate::Or, Gate::Nand, Gate::Xnor, Gate::Nor];
    let bits_l = [true, false, true, true, false, false];
    let bits_r = [true, true, false, true, false, true];
    // Index 2 and 4 are wholly trivial pairs; they must stay trivial.
    let cts_l: Vec<Ciphertext> = bits_l
        .iter()
        .enumerate()
        .map(|(i, &b)| if i == 2 || i == 4 { Ciphertext::Trivial(b) } else { ck.encrypt(b) })
        .collect();
    let cts_r: Vec<Ciphertext> = bits_r
        .iter()
        .enumerate()
        .map(|(i, &b)| if i == 2 || i == 4 { Ciphertext::Trivial(b) } else { ck.encrypt(b) })
        .collect();
    let out = sk.gates_packed(&gates, &cts_l, &cts_r);
    assert_eq!(out.len(), 6);
    for i in 0..6 {
        assert_eq!(ck.decrypt(&out[i]), truth(gates[i], bits_l[i], bits_r[i]), "index {}", i);
        if i == 2 || i == 4 {
            assert!(matches!(out[i], Ciphertext::Trivial(_)));
        } else {
            assert!(matches!(out[i], Ciphertext::Encrypted(_)));
        }
    }
}

#[test]
fn assign_gates_overwrite_left_operand() {
    let mut ck = ClientKey::new(37);
    let mut sk = ServerKey::new(&ck);
    for a in [false, true] {
        for b in [false, true] {
            let mut l = ck.encrypt(a);
            let r = ck.encrypt(b);
            sk.and_assign(&mut l, &r);
            assert_eq!(ck.decrypt(&l), a && b);
            let mut l2 = ck.encrypt(a);
            sk.xor_assign(&mut l2, &r);
            assert_eq!(ck.decrypt(&l2), a != b);
            let mut l3 = ck.encrypt(a);
            sk.nor_assign(&mut l3, &r);
            assert_eq!(ck.decrypt(&l3), !(a || b));
            let mut l4 = ck.encrypt(a);
            sk.nand_assign(&mut l4, &r);
            assert_eq!(ck.decrypt(&l4), !(a && b));
            let mut l5 = ck.encrypt(a);
            sk.or_assign(&mut l5, &r);
            assert_eq!(ck.decrypt(&l5), a || b);
            let mut l6 = ck.encrypt(a);
            sk.xnor_assign(&mut l6, &r);
            assert_eq!(ck.decrypt(&l6), a == b);
        }
    }
}

#[test]
fn not_packed_preserves_order() {
    let mut ck = ClientKey::new(41);
    let sk = ServerKey::new(&ck);
    let bits = [true, false, false, true, true];
    let cts: Vec<Ciphertext> = bits.iter().map(|&b| ck.encrypt(b)).collect();
    let out = sk.not_packed(&cts);
    assert_eq!(out.len(), bits.len());
    for i in 0..bits.len() {
        assert_eq!(ck.decrypt(&out[i]), !bits[i]);
    }
}

#[test]
fn compressed_server_key_expands_to_working_key() {
    let mut ck = ClientKey::new(43);
    let compressed = fhe_boolean::server_key::CompressedServerKey::new(&ck);
    let mut sk = compressed.decompress();
    let ca = ck.encrypt(true);
    let cb = ck.encrypt(true);
    let out = sk.and(&ca, &cb);
    assert!(ck.decrypt(&out));
}
