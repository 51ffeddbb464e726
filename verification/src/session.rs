//! The session windows: sizes in the list of files that changed since the
//! session was last opened, and restoring an earlier version of it.
use vstd::prelude::*;
use vstd::arithmetic::power2::{pow2, lemma2_to64};
use vstd::bits::{lemma_u64_shl_is_mul, lemma_u64_pow2_no_overflow};

use crate::regions::toast_pushed;
use crate::state::{ToastSeverity, WavesPreviewer};
use crate::text::{decimal, digit_char, push_char, push_decimal, push_decimal_u128};

verus! {

/// One kibibyte.
pub const KIB: u64 = 1024;
/// One mebibyte.
pub const MIB: u64 = 1024 * 1024;

/// The number of binary digits of `n` (0 for 0).
pub open spec fn bit_length(n: nat) -> nat
    decreases n,
{
    if n == 0 {
        0
    } else {
        1 + bit_length(n / 2)
    }
}

/// `num / den` rounded to the nearest integer, ties to the even one.
pub open spec fn round_half_even_div(num: nat, den: nat) -> nat {
    let q = num / den;
    let rem = num % den;
    if 2 * rem > den || (2 * rem == den && q % 2 == 1) {
        q + 1
    } else {
        q
    }
}

/// The value `n as f64` holds: `n` rounded to 53 significant bits, ties to
/// even.
pub open spec fn f64_rounded(n: nat) -> nat {
    let len = bit_length(n);
    if len <= 53 {
        n
    } else {
        let p = pow2((len - 53) as nat);
        round_half_even_div(n, p) * p
    }
}

/// `num / den` written with one decimal, rounded half to even, as
/// `format!("{:.1}", x)` writes the exact value `x = num / den`.
pub open spec fn one_decimal(num: nat, den: nat) -> Seq<char> {
    let tenths = round_half_even_div(10 * num, den);
    decimal(tenths / 10) + seq!['.', digit_char(tenths % 10)]
}

/// A byte count as the changes window writes it: megabytes or kilobytes
/// with one decimal from one unit up (what dividing `bytes as f64` by the
/// unit and formatting with `{:.1}` gives), plain bytes below.
pub open spec fn human_bytes_text(bytes: nat) -> Seq<char> {
    if bytes >= MIB {
        one_decimal(f64_rounded(bytes), MIB as nat) + " MB"@
    } else if bytes >= KIB {
        one_decimal(bytes, KIB as nat) + " KB"@
    } else {
        decimal(bytes) + " B"@
    }
}

proof fn lemma_bit_length_bound(n: nat, k: nat)
    requires
        n < pow2(k),
    ensures
        bit_length(n) <= k,
    decreases k,
{
    if k == 0 {
        assert(pow2(0) == 1) by {
            lemma2_to64();
        }
    } else if n > 0 {
        vstd::arithmetic::power2::lemma_pow2_unfold(k);
        lemma_bit_length_bound(n / 2, (k - 1) as nat);
    }
}

proof fn lemma_below_pow2_bit_length(n: nat)
    ensures
        n < pow2(bit_length(n)),
    decreases n,
{
    if n == 0 {
        assert(pow2(0) == 1) by {
            lemma2_to64();
        }
    } else {
        lemma_below_pow2_bit_length(n / 2);
        vstd::arithmetic::power2::lemma_pow2_unfold(bit_length(n));
    }
}

fn append_one_decimal(s: &mut String, num: u128, den: u128)
    requires
        den > 0,
        den <= 0x1_0000_0000_0000_0000,
        num <= 0x1_0000_0000_0000_0000,
    ensures
        final(s)@ == old(s)@ + one_decimal(num as nat, den as nat),
{
    let n10 = num * 10;
    let q = n10 / den;
    let rem = n10 % den;
    let tenths: u128 = if 2 * rem > den || (2 * rem == den && q % 2 == 1) {
        q + 1
    } else {
        q
    };
    push_decimal_u128(s, tenths / 10);
    push_char(s, '.');
    let d = (tenths % 10) as u64;
    let c = if d == 0 {
        '0'
    } else if d == 1 {
        '1'
    } else if d == 2 {
        '2'
    } else if d == 3 {
        '3'
    } else if d == 4 {
        '4'
    } else if d == 5 {
        '5'
    } else if d == 6 {
        '6'
    } else if d == 7 {
        '7'
    } else if d == 8 {
        '8'
    } else {
        '9'
    };
    push_char(s, c);
    assert(s@ =~= old(s)@ + one_decimal(num as nat, den as nat));
}

/// A byte count for the changes window: `1.5 MB`, `2.0 KB`, `512 B`.
pub fn human_bytes(bytes: u64) -> (text: String)
    ensures
        text@ == human_bytes_text(bytes as nat),
{
    let mut text = String::new();
    if bytes >= MIB {
        // The value `bytes as f64` holds.
        let mut x = bytes;
        let mut len: u64 = 0;
        proof {
            lemma2_to64();
            vstd::arithmetic::power2::lemma2_to64_rest();
            lemma_bit_length_bound(bytes as nat, 64);
            lemma_below_pow2_bit_length(bytes as nat);
        }
        while x > 0
            invariant
                bit_length(bytes as nat) == len + bit_length(x as nat),
                len <= 64,
                len + bit_length(x as nat) <= 64,
            decreases x,
        {
            x = x / 2;
            len = len + 1;
        }
        let rounded: u128 = if len <= 53 {
            bytes as u128
        } else {
            let shift = len - 53;
            proof {
                lemma_u64_pow2_no_overflow(shift as nat);
                lemma_u64_shl_is_mul(1, shift);
                vstd::arithmetic::power2::lemma_pow2_adds(53, shift as nat);
                if len < 64 {
                    vstd::arithmetic::power2::lemma_pow2_strictly_increases(len as nat, 64);
                }
            }
            let p: u64 = 1u64 << shift;
            let q = bytes / p;
            let rem = bytes % p;
            let up = if 2 * (rem as u128) > p as u128 || (2 * (rem as u128) == p as u128 && q % 2 == 1) {
                1u64
            } else {
                0u64
            };
            proof {
                assert(q * p <= bytes) by (nonlinear_arith)
                    requires
                        q == bytes / p,
                        p > 0,
                ;
                let big = pow2(53);
                assert(big == 0x20_0000_0000_0000) by {
                    lemma2_to64();
                    vstd::arithmetic::power2::lemma2_to64_rest();
                }
                assert(bytes < big * p);
                assert(q < big) by (nonlinear_arith)
                    requires
                        q * p <= bytes,
                        bytes < big * p,
                        p > 0,
                ;
                assert((q + up) * p <= big * p) by (nonlinear_arith)
                    requires
                        q < big,
                        up <= 1,
                        p > 0,
                ;
                assert(big * p <= 0x1_0000_0000_0000_0000);
                assert((q + up) * p <= 0x1_0000_0000_0000_0000);
            }
            ((q + up) as u128) * (p as u128)
        };
        append_one_decimal(&mut text, rounded, MIB as u128);
        text.append(" MB");
    } else if bytes >= KIB {
        append_one_decimal(&mut text, bytes as u128, KIB as u128);
        text.append(" KB");
    } else {
        push_decimal(&mut text, bytes);
        text.append(" B");
    }
    text
}


/// How a file the session points at differs from when the session was last
/// opened.
#[derive(Clone, Copy, Debug, PartialEq, Eq, Structural)]
pub enum ChangeKind {
    Changed,
    Added,
    Removed,
    Unreadable,
}

/// The size column of a changed file: `—` for a file that is gone or
/// cannot be read, else its size.
pub fn change_size_text(kind: ChangeKind, size: u64) -> (text: String)
    ensures
        text@ == match kind {
            ChangeKind::Removed | ChangeKind::Unreadable => "\u{2014}"@,
            _ => human_bytes_text(size as nat),
        },
{
    match kind {
        ChangeKind::Removed | ChangeKind::Unreadable => String::from_str("\u{2014}"),
        _ => human_bytes(size),
    }
}

impl WavesPreviewer {
    /// Whether a history action on the session may go ahead: restoring an
    /// earlier version while there are unsaved edits is refused with a
    /// warning; saving a version elsewhere always goes ahead.
    pub fn session_history_action_allowed(&mut self, restore: bool, unsaved_work: bool) -> (allowed: bool)
        ensures
            allowed == !(restore && unsaved_work),
            allowed ==> *final(self) == *old(self),
            !allowed ==> toast_pushed(
                *old(self),
                *final(self),
                ToastSeverity::Warning,
                "Save or discard your in-memory edits before restoring an earlier version"@,
            ),
    {
        if restore && unsaved_work {
            self.push_toast(
                ToastSeverity::Warning,
                String::from_str("Save or discard your in-memory edits before restoring an earlier version"),
            );
            return false;
        }
        true
    }
}

} // verus!
