use fhe_boolean::bootstrap::HardwareConfig;
use fhe_boolean::client::ClientKey;
use fhe_boolean::gates::Gate;
use fhe_boolean::lwe::Ciphertext;
use fhe_boolean::server_key::{BinaryBooleanGates, FpgaGates, ServerKey};

use rand::{Rng, SeedableRng};

fn hw_config() -> HardwareConfig {
    HardwareConfig {
        image: Some(b"accel.xclbin".to_vec()),
        device_index: Some(b"0".to_vec()),
    }
}

fn truth(g: Gate, a: bool, b: bool) -> bool {
    match g {
        Gate::And => a && b,
        Gate::Nand => !(a && b),
        Gate::Nor => !(a || b),
        Gate::Or => a || b,
        Gate::Xor => a != b,
        Gate::Xnor => a == b,
    }
}

fn eval(sk: &mut ServerKey, g: Gate, l: &Ciphertext, r: &Ciphertext) -> Ciphertext {
    match g {
        Gate::And => sk.and(l, r),
        Gate::Nand => sk.nand(l, r),
        Gate::Nor => sk.nor(l, r),
        Gate::Or => sk.or(l, r),
        Gate::Xor => sk.xor(l, r),
        Gate::Xnor => sk.xnor(l, r),
    }
}

const ALL_GATES: [Gate; 6] = [Gate::And, Gate::Nand, Gate::Nor, Gate::Or, Gate::Xor, Gate::Xnor];

#[test]
fn encrypt_decrypt_round_trip() {
    let mut ck = ClientKey::new(7);
    for _ in 0..32 {
        let ct_t = ck.encrypt(true);
        let ct_f = ck.encrypt(false);
        assert!(ck.decrypt(&ct_t));
        assert!(!ck.decrypt(&ct_f));
    }
}

#[test]
fn binary_gates_software_truth_tables() {
    let mut ck = ClientKey::new(11);
    let mut sk = ServerKey::new(&ck);
    for g in ALL_GATES {
        for a in [false, true] {
            for b in [false, true] {
                let ca = ck.encrypt(a);
                let cb = ck.encrypt(b);
                let out = eval(&mut sk, g, &ca, &cb);
                assert_eq!(ck.decrypt(&out), truth(g, a, b), "{:?}({},{})", g, a, b);
            }
        }
    }
}

#[test]
fn binary_gates_hardware_truth_tables() {
    let mut ck = ClientKey::new(11);
    let mut sk = ServerKey::new(&ck);
    sk.enable_fpga(&hw_config()).unwrap();
    for g in ALL_GATES {
        for a in [false, true] {
            for b in [false, true] {
                let ca = ck.encrypt(a);
                let cb = ck.encrypt(b);
                let out = eval(&mut sk, g, &ca, &cb);
                assert_eq!(ck.decrypt(&out), truth(g, a, b), "{:?}({},{})", g, a, b);
            }
        }
    }
}

#[test]
fn binary_gates_random_trials_both_backends() {
    let mut rng = rand_chacha::ChaCha8Rng::seed_from_u64(0);
    let mut ck = ClientKey::new(rng.gen());
    let mut sw = ServerKey::new(&ck);
    let mut hw = ServerKey::new(&ck);
    hw.enable_fpga(&hw_config()).unwrap();
    for _ in 0..20 {
        let a = rng.gen_range(0..=1) != 0;
        let b = rng.gen_range(0..=1) != 0;
        let g = ALL_GATES[rng.gen_range(0..6)];
        let ca = ck.encrypt(a);
        let cb = ck.encrypt(b);
        let out_sw = eval(&mut sw, g, &ca, &cb);
        let out_hw = eval(&mut hw, g, &ca, &cb);
        let expected = truth(g, a, b);
        assert_eq!(ck.decrypt(&out_sw), expected);
        assert_eq!(ck.decrypt(&out_hw), expected);
    }
}

#[test]
fn trivial_pairs_resolve_without_bootstrapping() {
    let ck = ClientKey::new(3);
    let mut sk = ServerKey::new(&ck);
    for g in ALL_GATES {
        for a in [false, true] {
            for b in [false, true] {
                let ca = sk.trivial_encrypt(a);
                let cb = sk.trivial_encrypt(b);
                let out = eval(&mut sk, g, &ca, &cb);
                match out {
                    Ciphertext::Trivial(v) => assert_eq!(v, truth(g, a, b)),
                    Ciphertext::Encrypted(_) => panic!("trivial pair was bootstrapped"),
                }
            }
        }
    }
}

#[test]
fn mixed_trivial_and_encrypted_operands() {
    let mut ck = ClientKey::new(17);
    let mut sk = ServerKey::new(&ck);
    for g in ALL_GATES {
        for a in [false, true] {
            for b in [false, true] {
                let ca = sk.trivial_encrypt(a);
                let cb = ck.encrypt(b);
                let out = eval(&mut sk, g, &ca, &cb);
                assert_eq!(ck.decrypt(&out), truth(g, a, b), "{:?}({},{})", g, a, b);
            }
        }
    }
}

#[test]
fn not_gate() {
    let mut ck = ClientKey::new(23);
    let sk = ServerKey::new(&ck);
    for b in [false, true] {
        let ct = ck.encrypt(b);
        assert_eq!(ck.decrypt(&sk.not(&ct)), !b);
        let tv = sk.trivial_encrypt(b);
        assert_eq!(ck.decrypt(&sk.not(&tv)), !b);
        let mut ct2 = ck.encrypt(b);
        sk.not_assign(&mut ct2);
        assert_eq!(ck.decrypt(&ct2), !b);
    }
}

#[test]
fn mux_gate() {
    let mut ck = ClientKey::new(29);
    let mut sk = ServerKey::new(&ck);
    for c in [false, true] {
        for t in [false, true] {
            for e in [false, true] {
                let cc = ck.encrypt(c);
                let ct = ck.encrypt(t);
                let ce = ck.encrypt(e);
                let out = sk.mux(&cc, &ct, &ce);
                let expected = if c { t } else { e };
                assert_eq!(ck.decrypt(&out), expected, "mux({},{},{})", c, t, e);
            }
        }
    }
}

#[test]
fn gates_chain_after_bootstrapping() {
    let mut ck = ClientKey::new(31);
    let mut sk = ServerKey::new(&ck);
    let ca = ck.encrypt(true);
    let cb = ck.encrypt(false);
    let x = sk.xor(&ca, &cb);
    let y = sk.and(&x, &ca);
    let z = sk.or(&y, &cb);
    assert!(ck.decrypt(&z));
}
