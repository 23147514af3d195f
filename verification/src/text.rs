//! Byte-level parsing of the plain-text inputs the library's callers hand
//! in: decimal integers (the hardware device index, configuration fields)
//! and the space- and newline-separated state files the cell-board demo
//! reads its initial configuration from.

use vstd::prelude::*;

verus! {

/// Whether every byte of `s` is an ASCII decimal digit.
pub open spec fn sp_all_digits(s: Seq<u8>) -> bool {
    forall|i: int| 0 <= i < s.len() ==> 48 <= #[trigger] s[i] <= 57
}

/// The value of a digit string read as a decimal number.
pub open spec fn sp_num_val(s: Seq<u8>) -> int
    decreases s.len(),
{
    if s.len() == 0 {
        0
    } else {
        sp_num_val(s.drop_last()) * 10 + (s.last() - 48)
    }
}

/// The parse of a decimal token as a 64-bit number: defined exactly when the
/// token is a nonempty digit string whose value fits.
pub open spec fn sp_parse_u64(s: Seq<u8>) -> Option<u64> {
    if s.len() > 0 && sp_all_digits(s) && sp_num_val(s) <= u64::MAX {
        Some(sp_num_val(s) as u64)
    } else {
        None
    }
}

/// The parse of a decimal token as a 32-bit number.
pub open spec fn sp_parse_u32(s: Seq<u8>) -> Option<u32> {
    if s.len() > 0 && sp_all_digits(s) && sp_num_val(s) <= u32::MAX {
        Some(sp_num_val(s) as u32)
    } else {
        None
    }
}

/// The parse of a decimal token as a byte.
pub open spec fn sp_parse_u8(s: Seq<u8>) -> Option<u8> {
    if s.len() > 0 && sp_all_digits(s) && sp_num_val(s) <= u8::MAX {
        Some(sp_num_val(s) as u8)
    } else {
        None
    }
}

/// A digit string's value never shrinks as the string grows.
proof fn lemma_num_val_nonneg(s: Seq<u8>)
    requires
        sp_all_digits(s),
    ensures
        sp_num_val(s) >= 0,
    decreases s.len(),
{
    if s.len() > 0 {
        assert(sp_all_digits(s.drop_last()));
        lemma_num_val_nonneg(s.drop_last());
    }
}

/// Extending a digit string multiplies its value by ten and adds the digit,
/// so a prefix whose value exceeds a bound makes the whole string exceed it.
proof fn lemma_num_val_grows(s: Seq<u8>, i: int)
    requires
        sp_all_digits(s),
        0 <= i <= s.len(),
    ensures
        sp_num_val(s) >= sp_num_val(s.take(i)),
    decreases s.len() - i,
{
    if i < s.len() {
        lemma_num_val_grows(s, i + 1);
        assert(s.take(i + 1).drop_last() =~= s.take(i));
        assert(sp_all_digits(s.take(i)));
        lemma_num_val_nonneg(s.take(i));
        assert(sp_num_val(s.take(i + 1)) == sp_num_val(s.take(i)) * 10 + (s[i] - 48));
    } else {
        assert(s.take(i) =~= s);
    }
}

/// Parses a decimal token as a 64-bit number: `Some` exactly on nonempty
/// digit strings whose value fits.
pub fn parse_u64_ascii(s: &[u8]) -> (r: Option<u64>)
    ensures
        r == sp_parse_u64(s@),
{
    if s.len() == 0 {
        return None;
    }
    let mut acc: u64 = 0;
    let mut i: usize = 0;
    while i < s.len()
        invariant
            s@.len() > 0,
            i <= s@.len(),
            sp_all_digits(s@.take(i as int)),
            acc == sp_num_val(s@.take(i as int)),
        decreases s@.len() - i,
    {
        let b = s[i];
        if b < 48 || b > 57 {
            proof {
                assert(!sp_all_digits(s@));
            }
            return None;
        }
        let d = (b - 48) as u64;
        if acc > (u64::MAX - d) / 10 {
            proof {
                assert(sp_all_digits(s@.take(i as int + 1)));
                assert(s@.take(i as int + 1).drop_last() =~= s@.take(i as int));
                assert(sp_num_val(s@.take(i as int + 1)) == acc * 10 + d);
                if sp_all_digits(s@) {
                    lemma_num_val_grows(s@, i as int + 1);
                }
            }
            return None;
        }
        acc = acc * 10 + d;
        proof {
            assert(sp_all_digits(s@.take(i as int + 1)));
            assert(s@.take(i as int + 1).drop_last() =~= s@.take(i as int));
        }
        i += 1;
    }
    proof {
        assert(s@.take(i as int) =~= s@);
    }
    Some(acc)
}

/// Parses a decimal token as a 32-bit number.
pub fn parse_u32_ascii(s: &[u8]) -> (r: Option<u32>)
    ensures
        r == sp_parse_u32(s@),
{
    proof {
        if s@.len() > 0 && sp_all_digits(s@) {
            lemma_num_val_nonneg(s@);
        }
    }
    match parse_u64_ascii(s) {
        Some(v) => {
            if v <= 0xFFFF_FFFF {
                Some(v as u32)
            } else {
                None
            }
        },
        None => None,
    }
}

/// Parses a decimal token as a byte.
pub fn parse_u8_ascii(s: &[u8]) -> (r: Option<u8>)
    ensures
        r == sp_parse_u8(s@),
{
    proof {
        if s@.len() > 0 && sp_all_digits(s@) {
            lemma_num_val_nonneg(s@);
        }
    }
    match parse_u64_ascii(s) {
        Some(v) => {
            if v <= 0xFF {
                Some(v as u8)
            } else {
                None
            }
        },
        None => None,
    }
}

/// The bits contributed by one token of a state file: a token parsing as a
/// byte yields one cell, alive exactly when the byte is one; any other token
/// is skipped.
pub open spec fn sp_token_bits(tok: Seq<u8>) -> Seq<bool> {
    match sp_parse_u8(tok) {
        Some(v) => seq![v == 1],
        None => Seq::empty(),
    }
}

/// The cells of a state file from position `i` on, given that the current
/// token started at `start`: tokens are the maximal runs between spaces and
/// newlines.
pub open spec fn sp_state_cells(s: Seq<u8>, i: int, start: int) -> Seq<bool>
    decreases s.len() - i,
{
    if i < 0 || start < 0 || i >= s.len() {
        sp_token_bits(s.subrange(start, s.len() as int))
    } else if s[i] == 32 || s[i] == 10 {
        sp_token_bits(s.subrange(start, i)) + sp_state_cells(s, i + 1, i + 1)
    } else {
        sp_state_cells(s, i + 1, start)
    }
}

/// The number of newline bytes of a state file: its row count (every row,
/// the last included, ends in a newline).
pub open spec fn sp_count_newlines(s: Seq<u8>, i: int) -> int
    decreases s.len() - i,
{
    if i < 0 || i >= s.len() {
        0
    } else {
        (if s[i] == 10 {
            1int
        } else {
            0int
        }) + sp_count_newlines(s, i + 1)
    }
}

/// The number of space bytes before the first newline: the column count of
/// the first row (every cell token, the last included, ends in a space).
pub open spec fn sp_count_first_row_spaces(s: Seq<u8>, i: int) -> int
    decreases s.len() - i,
{
    if i < 0 || i >= s.len() || s[i] == 10 {
        0
    } else {
        (if s[i] == 32 {
            1int
        } else {
            0int
        }) + sp_count_first_row_spaces(s, i + 1)
    }
}

/// Parses a space- and newline-separated state file: returns the dimensions
/// (rows, columns) it declares and the cells it holds, row-major. A token is
/// a cell exactly when it parses as a byte; a cell is alive exactly when
/// that byte is one.
pub fn parse_state_text(s: &[u8]) -> (r: ((usize, usize), Vec<bool>))
    ensures
        r.0.0 == sp_count_newlines(s@, 0),
        r.0.1 == sp_count_first_row_spaces(s@, 0),
        r.1@ == sp_state_cells(s@, 0, 0),
{
    let mut n_rows: usize = 0;
    let mut i: usize = 0;
    while i < s.len()
        invariant
            i <= s@.len(),
            n_rows + sp_count_newlines(s@, i as int) == sp_count_newlines(s@, 0),
            n_rows <= i,
        decreases s@.len() - i,
    {
        if s[i] == 10 {
            n_rows += 1;
        }
        i += 1;
    }
    let mut n_cols: usize = 0;
    let mut j: usize = 0;
    let mut saw_newline = false;
    while j < s.len() && !saw_newline
        invariant
            j <= s@.len(),
            !saw_newline ==> n_cols + sp_count_first_row_spaces(s@, j as int)
                == sp_count_first_row_spaces(s@, 0),
            saw_newline ==> n_cols == sp_count_first_row_spaces(s@, 0),
            n_cols <= j,
        decreases s@.len() - j + (if saw_newline { 0int } else { 1int }),
    {
        if s[j] == 10 {
            saw_newline = true;
        } else {
            if s[j] == 32 {
                n_cols += 1;
            }
            j += 1;
        }
    }
    let mut cells: Vec<bool> = Vec::new();
    let mut k: usize = 0;
    let mut start: usize = 0;
    while k < s.len()
        invariant
            start <= k <= s@.len(),
            cells@ + sp_state_cells(s@, k as int, start as int) == sp_state_cells(s@, 0, 0),
        decreases s@.len() - k,
    {
        if s[k] == 32 || s[k] == 10 {
            push_token_bits(&mut cells, s, start, k);
            start = k + 1;
        }
        k += 1;
    }
    push_token_bits(&mut cells, s, start, s.len());
    ((n_rows, n_cols), cells)
}

/// Appends the cells of one token.
fn push_token_bits(cells: &mut Vec<bool>, s: &[u8], start: usize, end: usize)
    requires
        start <= end <= s@.len(),
    ensures
        final(cells)@ == old(cells)@ + sp_token_bits(s@.subrange(start as int, end as int)),
{
    let tok = &s[start..end];
    proof {
        assert(tok@ =~= s@.subrange(start as int, end as int));
    }
    match parse_u8_ascii(tok) {
        Some(v) => {
            cells.push(v == 1);
            proof {
                assert(cells@ =~= old(cells)@ + sp_token_bits(s@.subrange(
                    start as int, end as int)));
            }
        },
        None => {
            proof {
                assert(cells@ =~= old(cells)@ + sp_token_bits(s@.subrange(
                    start as int, end as int)));
            }
        },
    }
}

} // verus!
