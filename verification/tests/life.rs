use fhe_boolean::board::Board;
use fhe_boolean::client::ClientKey;
use fhe_boolean::lwe::Ciphertext;
use fhe_boolean::operators::is_alive;
use fhe_boolean::params::PACKING_FACTOR;
use fhe_boolean::server_key::ServerKey;

fn encrypt_column(ck: &mut ClientKey, bits: &[bool]) -> Vec<Ciphertext> {
    bits.iter().map(|&b| ck.encrypt(b)).collect()
}

fn zeros_triple(ck: &mut ClientKey, lanes: usize) -> (Vec<Ciphertext>, Vec<Ciphertext>, Vec<
    Ciphertext>) {
    (
        encrypt_column(ck, &vec![false; lanes]),
        encrypt_column(ck, &vec![false; lanes]),
        encrypt_column(ck, &vec![false; lanes]),
    )
}

/// Evaluates the rule circuit for every one of the 256 neighbour
/// configurations with the given centre state and checks each decrypted
/// output against the reference rule: alive exactly when the neighbour sum
/// is three, or the centre is alive and the neighbour sum is two.
fn check_all_neighbour_configurations(centre: bool) {
    let mut ck = ClientKey::new(97);
    let mut sk = ServerKey::new(&ck);
    let lanes = 256usize;
    let cell_p = encrypt_column(&mut ck, &vec![centre; lanes]);
    let neighbours: [Vec<Ciphertext>; 8] = std::array::from_fn(|e| {
        let bits: Vec<bool> = (0..lanes).map(|cfg| (cfg >> e) & 1 == 1).collect();
        encrypt_column(&mut ck, &bits)
    });
    let zeros = zeros_triple(&mut ck, lanes);
    let mut out: Vec<Ciphertext> = Vec::new();
    is_alive(&mut sk, cell_p, neighbours, &zeros, &mut out);
    assert_eq!(out.len(), lanes);
    for cfg in 0..lanes {
        let count = (cfg as u32).count_ones();
        let expected = count == 3 || (centre && count == 2);
        assert_eq!(ck.decrypt(&out[cfg]), expected, "centre {} configuration {:08b}", centre,
            cfg);
    }
}

#[test]
fn rule_circuit_all_configurations_dead_centre() {
    check_all_neighbour_configurations(false);
}

#[test]
fn rule_circuit_all_configurations_live_centre() {
    check_all_neighbour_configurations(true);
}

/// One board update of a blinker on a periodic five-by-five board matches
/// the plaintext rule.
#[test]
fn board_update_matches_plaintext_rule() {
    let (n_rows, n_cols) = (5usize, 5usize);
    let mut initial = vec![false; n_rows * n_cols];
    // A vertical blinker in the middle.
    initial[1 * n_cols + 2] = true;
    initial[2 * n_cols + 2] = true;
    initial[3 * n_cols + 2] = true;
    let mut ck = ClientKey::new(101);
    let mut sk = ServerKey::new(&ck);
    let states = encrypt_column(&mut ck, &initial);
    let zeros = zeros_triple(&mut ck, PACKING_FACTOR);
    let board_key = ClientKey::new(101);
    let mut board = Board::new(n_cols, states, board_key);
    board.update(&mut sk, &zeros);
    assert_eq!(board.states.len(), n_rows * n_cols);
    let decrypted: Vec<bool> = board.states.iter().map(|ct| ck.decrypt(ct)).collect();
    let expected = plaintext_step(&initial, n_rows, n_cols);
    assert_eq!(decrypted, expected);
    // A second update brings the blinker back.
    board.update(&mut sk, &zeros);
    let decrypted2: Vec<bool> = board.states.iter().map(|ct| ck.decrypt(ct)).collect();
    assert_eq!(decrypted2, initial);
}

/// An empty state list is a legal (zero-row) board, and updating it is a
/// no-op.
#[test]
fn empty_board_updates_to_empty() {
    let mut ck = ClientKey::new(103);
    let mut sk = ServerKey::new(&ck);
    let zeros = zeros_triple(&mut ck, PACKING_FACTOR);
    let mut board = Board::new(4, Vec::new(), ClientKey::new(103));
    assert_eq!(board.dimensions, (0, 4));
    board.update(&mut sk, &zeros);
    assert!(board.states.is_empty());
    assert_eq!(board.dimensions, (0, 4));
}

fn plaintext_step(states: &[bool], nx: usize, ny: usize) -> Vec<bool> {
    let mut out = vec![false; nx * ny];
    for i in 0..nx {
        for j in 0..ny {
            let im = if i == 0 { nx - 1 } else { i - 1 };
            let ip = if i == nx - 1 { 0 } else { i + 1 };
            let jm = if j == 0 { ny - 1 } else { j - 1 };
            let jp = if j == ny - 1 { 0 } else { j + 1 };
            let neighbours = [
                states[im * ny + jm],
                states[im * ny + j],
                states[im * ny + jp],
                states[i * ny + jm],
                states[i * ny + jp],
                states[ip * ny + jm],
                states[ip * ny + j],
                states[ip * ny + jp],
            ];
            let count = neighbours.iter().filter(|&&b| b).count();
            out[i * ny + j] = count == 3 || (states[i * ny + j] && count == 2);
        }
    }
    out
}
