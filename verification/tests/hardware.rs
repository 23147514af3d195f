use fhe_boolean::bootstrap::{Bootstrapper, HardwareConfig, HardwareError};
use fhe_boolean::client::ClientKey;
use fhe_boolean::layout::{LayoutError, SpectralKey, SpectralPair};
use fhe_boolean::params::{BSK_BUFFER_BYTES, BSK_WORD_BYTES, SPECTRAL_PAIRS};
use fhe_boolean::server_key::{BinaryBooleanGates, FpgaGates, ServerKey};

fn hw_config() -> HardwareConfig {
    HardwareConfig {
        image: Some(b"accel.xclbin".to_vec()),
        device_index: Some(b"1".to_vec()),
    }
}

fn spectral_key(pairs: usize) -> SpectralKey {
    SpectralKey {
        pairs: (0..pairs)
            .map(|p| SpectralPair { im: (2 * p + 1) as u64, re: (2 * p) as u64 })
            .collect(),
    }
}

/// The transformed key image fills the fixed key buffer exactly.
#[test]
fn key_image_fills_buffer_exactly() {
    let b = Bootstrapper::new();
    let img = b.bsk_for_fpga(&spectral_key(SPECTRAL_PAIRS)).unwrap();
    assert_eq!(img.len() * BSK_WORD_BYTES, BSK_BUFFER_BYTES);
}

/// A key built under a different parameter set triggers the fatal
/// size-mismatch path deterministically, both too small and too large.
#[test]
fn key_image_size_mismatch_is_refused() {
    let b = Bootstrapper::new();
    assert_eq!(b.bsk_for_fpga(&spectral_key(SPECTRAL_PAIRS - 1)),
        Err(LayoutError::SizeMismatch));
    assert_eq!(b.bsk_for_fpga(&spectral_key(SPECTRAL_PAIRS + 1)),
        Err(LayoutError::SizeMismatch));
    assert_eq!(b.bsk_for_fpga(&spectral_key(0)), Err(LayoutError::SizeMismatch));
    // Deterministic: the same mismatched key is refused again.
    assert_eq!(b.bsk_for_fpga(&spectral_key(SPECTRAL_PAIRS - 1)),
        Err(LayoutError::SizeMismatch));
}

/// Enabling the hardware twice allocates device resources exactly once:
/// the second call is an observable no-op.
#[test]
fn enable_twice_allocates_once() {
    let ck = ClientKey::new(51);
    let mut sk = ServerKey::new(&ck);
    assert_eq!(sk.bootstrapper.sessions_opened, 0);
    assert!(sk.bootstrapper.session.is_none());
    sk.enable_fpga(&hw_config()).unwrap();
    assert_eq!(sk.bootstrapper.sessions_opened, 1);
    assert!(sk.bootstrapper.session.is_some());
    sk.enable_fpga(&hw_config()).unwrap();
    assert_eq!(sk.bootstrapper.sessions_opened, 1);
    assert!(sk.bootstrapper.session.is_some());
    sk.enable_fpga(&hw_config()).unwrap();
    assert_eq!(sk.bootstrapper.sessions_opened, 1);
}

#[test]
fn enable_reports_each_configuration_fault() {
    let ck = ClientKey::new(53);
    let mut sk = ServerKey::new(&ck);
    let missing_image = HardwareConfig { image: None, device_index: Some(b"0".to_vec()) };
    assert_eq!(sk.enable_fpga(&missing_image), Err(HardwareError::MissingImage));
    assert!(sk.bootstrapper.session.is_none());
    let missing_index = HardwareConfig { image: Some(b"accel.xclbin".to_vec()),
        device_index: None };
    assert_eq!(sk.enable_fpga(&missing_index), Err(HardwareError::MissingDeviceIndex));
    assert!(sk.bootstrapper.session.is_none());
    let bad_index = HardwareConfig { image: Some(b"accel.xclbin".to_vec()),
        device_index: Some(b"zero".to_vec()) };
    assert_eq!(sk.enable_fpga(&bad_index), Err(HardwareError::InvalidDeviceIndex));
    assert!(sk.bootstrapper.session.is_none());
    let empty_index = HardwareConfig { image: Some(b"accel.xclbin".to_vec()),
        device_index: Some(Vec::new()) };
    assert_eq!(sk.enable_fpga(&empty_index), Err(HardwareError::InvalidDeviceIndex));
    assert_eq!(sk.bootstrapper.sessions_opened, 0);
}

#[test]
fn disable_returns_to_software_and_is_idempotent() {
    let mut ck = ClientKey::new(59);
    let mut sk = ServerKey::new(&ck);
    sk.disable_fpga();
    assert!(sk.bootstrapper.session.is_none());
    sk.enable_fpga(&hw_config()).unwrap();
    assert!(sk.bootstrapper.session.is_some());
    sk.disable_fpga();
    assert!(sk.bootstrapper.session.is_none());
    sk.disable_fpga();
    assert!(sk.bootstrapper.session.is_none());
    // Gates still work on the software backend after disabling.
    let ca = ck.encrypt(true);
    let cb = ck.encrypt(false);
    let out = sk.or(&ca, &cb);
    assert!(ck.decrypt(&out));
    // Re-enabling opens a second session.
    sk.enable_fpga(&hw_config()).unwrap();
    assert_eq!(sk.bootstrapper.sessions_opened, 2);
}

/// The run flag is reset to idle after every batch: the session stays ready
/// for the next dispatch.
#[test]
fn run_flag_idle_between_batches() {
    let mut ck = ClientKey::new(61);
    let mut sk = ServerKey::new(&ck);
    sk.enable_fpga(&hw_config()).unwrap();
    for _ in 0..3 {
        let ca = ck.encrypt(true);
        let cb = ck.encrypt(true);
        let out = sk.and(&ca, &cb);
        assert!(ck.decrypt(&out));
        assert!(!sk.bootstrapper.session.as_ref().unwrap().running);
    }
}
