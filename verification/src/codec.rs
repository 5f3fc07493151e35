//! Byte-level codecs the stream and the lending program use: base64 payload
//! decoding (standard alphabet, canonical `=` padding), the lending
//! instruction wire format (a one-byte tag and a little-endian amount), and
//! decimal parsing of quoted amounts.

use vstd::prelude::*;
use vstd::string::StringSliceAdditionalSpecFns;
use crate::flash::LendingError;

verus! {

/// The base64 value of one alphabet byte, or -1 when the byte is not in the
/// standard alphabet.
pub open spec fn b64_val(b: u8) -> int {
    if 65 <= b <= 90 {
        b - 65
    } else if 97 <= b <= 122 {
        b - 71
    } else if 48 <= b <= 57 {
        b + 4
    } else if b == 43 {
        62int
    } else if b == 47 {
        63int
    } else {
        -1int
    }
}

/// The decoded bytes of a base64 text, processed four characters at a time;
/// `None` when the text is not canonical base64: a length that is no multiple
/// of four, a byte outside the alphabet, padding anywhere but the end, or
/// padded bits that are not zero.
pub open spec fn b64_decode_spec(s: Seq<u8>) -> Option<Seq<u8>>
    decreases s.len(),
{
    if s.len() == 0 {
        Some(Seq::<u8>::empty())
    } else if s.len() < 4 {
        None
    } else {
        let va = b64_val(s[0]);
        let vb = b64_val(s[1]);
        if va < 0 || vb < 0 {
            None
        } else if s[2] == 61 && s[3] == 61 {
            if s.len() != 4 {
                None
            } else if vb % 16 != 0 {
                None
            } else {
                Some(seq![(va * 4 + vb / 16) as u8])
            }
        } else if s[3] == 61 {
            let vc = b64_val(s[2]);
            if s.len() != 4 {
                None
            } else if vc < 0 || vc % 4 != 0 {
                None
            } else {
                Some(seq![(va * 4 + vb / 16) as u8, (vb % 16 * 16 + vc / 4) as u8])
            }
        } else {
            let vc = b64_val(s[2]);
            let vd = b64_val(s[3]);
            if vc < 0 || vd < 0 {
                None
            } else {
                match b64_decode_spec(s.skip(4)) {
                    None => None,
                    Some(rest) => Some(
                        seq![
                            (va * 4 + vb / 16) as u8,
                            (vb % 16 * 16 + vc / 4) as u8,
                            (vc % 4 * 64 + vd) as u8,
                        ] + rest,
                    ),
                }
            }
        }
    }
}

/// The base64 value of one byte, or 255 for a byte outside the alphabet.
fn b64_val_exec(b: u8) -> (r: u8)
    ensures
        r != 255 ==> r == b64_val(b) && r < 64,
        r == 255 ==> b64_val(b) == -1,
{
    if 65 <= b && b <= 90 {
        b - 65
    } else if 97 <= b && b <= 122 {
        b - 71
    } else if 48 <= b && b <= 57 {
        b + 4
    } else if b == 43 {
        62
    } else if b == 47 {
        63
    } else {
        255
    }
}

/// Decodes canonical standard-alphabet base64 text into bytes; errs exactly
/// on text that [`b64_decode_spec`] rejects.
pub fn decode(input: &str) -> (r: Result<Vec<u8>, String>)
    ensures
        r matches Ok(v) ==> Some(v@) == b64_decode_spec(input.spec_bytes()),
        r is Err <==> b64_decode_spec(input.spec_bytes()) is None,
{
    let bytes = input.as_bytes();
    let ghost s = input.spec_bytes();
    let n = bytes.len();
    if n % 4 != 0 {
        proof {
            lemma_b64_rejects_ragged(s);
        }
        return Err(String::from_str("invalid base64 input"));
    }
    let mut out: Vec<u8> = Vec::new();
    let mut i: usize = 0;
    proof {
        assert(s.skip(0) =~= s);
        if b64_decode_spec(s) is Some {
            assert(Seq::<u8>::empty() + b64_decode_spec(s)->Some_0 =~= b64_decode_spec(
                s,
            )->Some_0);
        }
    }
    while i < n
        invariant
            bytes@ == s,
            s == input.spec_bytes(),
            n == s.len(),
            i <= n,
            i % 4 == 0,
            n % 4 == 0,
            b64_decode_spec(s) == match b64_decode_spec(s.skip(i as int)) {
                None => None::<Seq<u8>>,
                Some(rest) => Some(out@ + rest),
            },
        decreases n - i,
    {
        let ghost tail = s.skip(i as int);
        proof {
            assert(tail.len() == n - i >= 4);
            assert(tail[0] == s[i as int] && tail[1] == s[i + 1] && tail[2] == s[i + 2] && tail[3]
                == s[i + 3]);
            assert(tail.skip(4) =~= s.skip(i + 4));
        }
        let a = b64_val_exec(bytes[i]);
        let b = b64_val_exec(bytes[i + 1]);
        if a == 255 || b == 255 {
            proof {
                assert(b64_decode_spec(tail) is None);
            }
            return Err(String::from_str("invalid base64 input"));
        }
        if bytes[i + 2] == 61 && bytes[i + 3] == 61 {
            if i + 4 != n || b % 16 != 0 {
                proof {
                    assert(tail.len() != 4 || b64_val(tail[1]) % 16 != 0);
                    assert(b64_decode_spec(tail) is None);
                }
                return Err(String::from_str("invalid base64 input"));
            }
            let ghost before = out@;
            out.push(a * 4 + b / 16);
            i = i + 4;
            proof {
                assert(out@ =~= before + seq![(b64_val(tail[0]) * 4 + b64_val(tail[1]) / 16) as u8]);
                assert(b64_decode_spec(tail) == Some(
                    seq![(b64_val(tail[0]) * 4 + b64_val(tail[1]) / 16) as u8],
                ));
                assert(s.skip(i as int) =~= Seq::<u8>::empty());
                assert(out@ + Seq::<u8>::empty() =~= out@);
            }
        } else if bytes[i + 3] == 61 {
            let c = b64_val_exec(bytes[i + 2]);
            if i + 4 != n || c == 255 || c % 4 != 0 {
                proof {
                    assert(b64_decode_spec(tail) is None);
                }
                return Err(String::from_str("invalid base64 input"));
            }
            let ghost before = out@;
            out.push(a * 4 + b / 16);
            out.push(b % 16 * 16 + c / 4);
            i = i + 4;
            proof {
                assert(out@ =~= before + seq![
                    (b64_val(tail[0]) * 4 + b64_val(tail[1]) / 16) as u8,
                    (b64_val(tail[1]) % 16 * 16 + b64_val(tail[2]) / 4) as u8,
                ]);
                assert(s.skip(i as int) =~= Seq::<u8>::empty());
                assert(out@ + Seq::<u8>::empty() =~= out@);
            }
        } else {
            let c = b64_val_exec(bytes[i + 2]);
            let d = b64_val_exec(bytes[i + 3]);
            if c == 255 || d == 255 {
                proof {
                    assert(b64_decode_spec(tail) is None);
                }
                return Err(String::from_str("invalid base64 input"));
            }
            let ghost before = out@;
            out.push(a * 4 + b / 16);
            out.push(b % 16 * 16 + c / 4);
            out.push(c % 4 * 64 + d);
            i = i + 4;
            proof {
                let ghost chunk = seq![
                    (b64_val(tail[0]) * 4 + b64_val(tail[1]) / 16) as u8,
                    (b64_val(tail[1]) % 16 * 16 + b64_val(tail[2]) / 4) as u8,
                    (b64_val(tail[2]) % 4 * 64 + b64_val(tail[3])) as u8,
                ];
                assert(out@ =~= before + chunk);
                if b64_decode_spec(s.skip(i as int)) is Some {
                    let rest = b64_decode_spec(s.skip(i as int))->Some_0;
                    assert(before + (chunk + rest) =~= out@ + rest);
                }
            }
        }
    }
    proof {
        assert(s.skip(i as int) =~= Seq::<u8>::empty());
        assert(out@ + Seq::<u8>::empty() =~= out@);
    }
    Ok(out)
}

/// A text whose length is no multiple of four decodes to nothing.
proof fn lemma_b64_rejects_ragged(s: Seq<u8>)
    requires
        s.len() % 4 != 0,
    ensures
        b64_decode_spec(s) is None,
    decreases s.len(),
{
    if s.len() >= 4 {
        if b64_val(s[0]) >= 0 && b64_val(s[1]) >= 0 && !(s[2] == 61 && s[3] == 61) && s[3] != 61
            && b64_val(s[2]) >= 0 && b64_val(s[3]) >= 0 {
            lemma_b64_rejects_ragged(s.skip(4));
        }
    }
}

// ----------------------------------------------------------------------------
// Lending instruction wire format
// ----------------------------------------------------------------------------

/// The wire tag of the flash-loan instruction.
pub const FLASH_LOAN_TAG: u8 = 12;

/// The instructions the lending program understands.
#[derive(Clone, Copy, Debug, PartialEq, Eq, Structural)]
pub enum LendingInstruction {
    /// Borrow `amount`, to be repaid with fees within the same transaction.
    FlashLoan { amount: u64 },
}

/// Byte `i` of the little-endian encoding of `x`.
pub open spec fn le_byte(x: u64, i: int) -> u8 {
    (x as int / pow256(i) % 256) as u8
}

/// 256 to the `i`-th.
pub open spec fn pow256(i: int) -> int
    decreases i,
{
    if i <= 0 {
        1int
    } else {
        256 * pow256(i - 1)
    }
}

/// The value of eight little-endian bytes.
pub open spec fn u64_from_le_spec(s: Seq<u8>) -> int {
    s[0] + 256 * (s[1] + 256 * (s[2] + 256 * (s[3] + 256 * (s[4] + 256 * (s[5] + 256 * (s[6] + 256
        * s[7]))))))
}

impl LendingInstruction {
    /// The instruction's amount.
    pub open spec fn amount_spec(self) -> u64 {
        match self {
            LendingInstruction::FlashLoan { amount } => amount,
        }
    }

    /// Serializes the instruction: the tag byte, then the amount in
    /// little-endian order.
    pub fn pack(&self) -> (r: Vec<u8>)
        ensures
            r@.len() == 9,
            r@[0] == FLASH_LOAN_TAG,
            u64_from_le_spec(r@.skip(1)) == self.amount_spec(),
    {
        let amount = match self {
            LendingInstruction::FlashLoan { amount } => *amount,
        };
        let mut buf: Vec<u8> = Vec::new();
        buf.push(FLASH_LOAN_TAG);
        buf.push((amount % 256) as u8);
        buf.push((amount / 256 % 256) as u8);
        buf.push((amount / 65536 % 256) as u8);
        buf.push((amount / 16777216 % 256) as u8);
        buf.push((amount / 4294967296 % 256) as u8);
        buf.push((amount / 1099511627776 % 256) as u8);
        buf.push((amount / 281474976710656 % 256) as u8);
        buf.push((amount / 72057594037927936) as u8);
        proof {
            assert(u64_from_le_spec(buf@.skip(1)) == amount) by {
                assert(buf@.skip(1)[0] == amount as int % 256);
                assert(buf@.skip(1)[1] == amount as int / 256 % 256);
                assert(buf@.skip(1)[2] == amount as int / 65536 % 256);
                assert(buf@.skip(1)[3] == amount as int / 16777216 % 256);
                assert(buf@.skip(1)[4] == amount as int / 4294967296 % 256);
                assert(buf@.skip(1)[5] == amount as int / 1099511627776 % 256);
                assert(buf@.skip(1)[6] == amount as int / 281474976710656 % 256);
                assert(buf@.skip(1)[7] == amount as int / 72057594037927936);
                lemma_le_recompose(amount);
            }
        }
        buf
    }

    /// Parses an instruction: a flash-loan tag followed by at least eight
    /// bytes of little-endian amount (trailing bytes are ignored); anything
    /// else is an invalid instruction.
    pub fn unpack(input: &[u8]) -> (r: Result<LendingInstruction, LendingError>)
        ensures
            r matches Ok(ins) ==> input@.len() >= 9 && input@[0] == FLASH_LOAN_TAG
                && ins.amount_spec() == u64_from_le_spec(input@.skip(1)),
            r is Err <==> input@.len() < 9 || input@[0] != FLASH_LOAN_TAG,
            r matches Err(e) ==> e == LendingError::InvalidInstruction,
    {
        if input.len() < 9 {
            return Err(LendingError::InvalidInstruction);
        }
        if input[0] != FLASH_LOAN_TAG {
            return Err(LendingError::InvalidInstruction);
        }
        let amount: u64 = (input[1] as u64) + 256 * ((input[2] as u64) + 256 * ((input[3] as u64)
            + 256 * ((input[4] as u64) + 256 * ((input[5] as u64) + 256 * ((input[6] as u64) + 256
            * ((input[7] as u64) + 256 * (input[8] as u64)))))));
        proof {
            assert(input@.skip(1)[0] == input@[1]);
            assert(input@.skip(1)[1] == input@[2]);
            assert(input@.skip(1)[2] == input@[3]);
            assert(input@.skip(1)[3] == input@[4]);
            assert(input@.skip(1)[4] == input@[5]);
            assert(input@.skip(1)[5] == input@[6]);
            assert(input@.skip(1)[6] == input@[7]);
            assert(input@.skip(1)[7] == input@[8]);
        }
        Ok(LendingInstruction::FlashLoan { amount })
    }
}

/// Recomposing a 64-bit value from its little-endian digit decomposition
/// gives the value back.
proof fn lemma_le_recompose(x: u64)
    ensures
        x as int % 256 + 256 * (x as int / 256 % 256 + 256 * (x as int / 65536 % 256 + 256 * (
        x as int / 16777216 % 256 + 256 * (x as int / 4294967296 % 256 + 256 * (x as int
            / 1099511627776 % 256 + 256 * (x as int / 281474976710656 % 256 + 256 * (x as int
            / 72057594037927936))))))) == x as int,
{
    let v = x as int;
    vstd::arithmetic::div_mod::lemma_fundamental_div_mod(v, 256);
    vstd::arithmetic::div_mod::lemma_fundamental_div_mod(v / 256, 256);
    vstd::arithmetic::div_mod::lemma_fundamental_div_mod(v / 65536, 256);
    vstd::arithmetic::div_mod::lemma_fundamental_div_mod(v / 16777216, 256);
    vstd::arithmetic::div_mod::lemma_fundamental_div_mod(v / 4294967296, 256);
    vstd::arithmetic::div_mod::lemma_fundamental_div_mod(v / 1099511627776, 256);
    vstd::arithmetic::div_mod::lemma_fundamental_div_mod(v / 281474976710656, 256);
    assert(v / 256 / 256 == v / 65536) by {
        vstd::arithmetic::div_mod::lemma_div_denominator(v, 256, 256);
    }
    assert(v / 65536 / 256 == v / 16777216) by {
        vstd::arithmetic::div_mod::lemma_div_denominator(v, 65536, 256);
    }
    assert(v / 16777216 / 256 == v / 4294967296) by {
        vstd::arithmetic::div_mod::lemma_div_denominator(v, 16777216, 256);
    }
    assert(v / 4294967296 / 256 == v / 1099511627776) by {
        vstd::arithmetic::div_mod::lemma_div_denominator(v, 4294967296, 256);
    }
    assert(v / 1099511627776 / 256 == v / 281474976710656) by {
        vstd::arithmetic::div_mod::lemma_div_denominator(v, 1099511627776, 256);
    }
    assert(v / 281474976710656 / 256 == v / 72057594037927936) by {
        vstd::arithmetic::div_mod::lemma_div_denominator(v, 281474976710656, 256);
    }
    assert(v / 72057594037927936 % 256 == v / 72057594037927936) by {
        assert(v / 72057594037927936 < 256) by {
            vstd::arithmetic::div_mod::lemma_div_is_ordered(
                v,
                0xffff_ffff_ffff_ffffu64 as int,
                72057594037927936,
            );
        }
        vstd::arithmetic::div_mod::lemma_small_mod(
            (v / 72057594037927936) as nat,
            256nat,
        );
        vstd::arithmetic::div_mod::lemma_div_pos_is_pos(v, 72057594037927936);
    }
    vstd::arithmetic::div_mod::lemma_fundamental_div_mod(v / 72057594037927936, 256);
}

// ----------------------------------------------------------------------------
// Decimal parsing
// ----------------------------------------------------------------------------

/// The decimal value of a digit string.
pub open spec fn dec_val(s: Seq<u8>) -> int
    decreases s.len(),
{
    if s.len() == 0 {
        0int
    } else {
        dec_val(s.drop_last()) * 10 + (s.last() - 48)
    }
}

/// Whether every byte is an ASCII digit.
pub open spec fn all_digits(s: Seq<u8>) -> bool {
    forall|i: int| 0 <= i < s.len() ==> 48 <= #[trigger] s[i] <= 57
}

/// Parses a decimal amount: the value of a non-empty all-digit string that
/// fits in 64 bits, and nothing otherwise.
pub fn parse_u64(input: &str) -> (r: Option<u64>)
    ensures
        r matches Some(v) ==> input.spec_bytes().len() > 0 && all_digits(input.spec_bytes()) && v
            == dec_val(input.spec_bytes()),
        input.spec_bytes().len() == 0 || !all_digits(input.spec_bytes()) || dec_val(
            input.spec_bytes(),
        ) > u64::MAX ==> r is None,
{
    let bytes = input.as_bytes();
    let ghost s = input.spec_bytes();
    let n = bytes.len();
    if n == 0 {
        return None;
    }
    let mut acc: u64 = 0;
    let mut i: usize = 0;
    while i < n
        invariant
            bytes@ == s,
            n == s.len(),
            i <= n,
            all_digits(s.take(i as int)),
            acc == dec_val(s.take(i as int)),
        decreases n - i,
    {
        let b = bytes[i];
        if b < 48 || b > 57 {
            return None;
        }
        let d: u64 = (b - 48) as u64;
        let acc10 = match acc.checked_mul(10) {
            Some(v) => v,
            None => {
                proof {
                    lemma_dec_val_mono(s, i as int);
                }
                return None;
            },
        };
        let next = match acc10.checked_add(d) {
            Some(v) => v,
            None => {
                proof {
                    lemma_dec_val_mono(s, i as int);
                }
                return None;
            },
        };
        proof {
            assert(s.take(i + 1).drop_last() =~= s.take(i as int));
            assert(s.take(i + 1).last() == s[i as int]);
        }
        acc = next;
        i = i + 1;
    }
    proof {
        assert(s.take(n as int) =~= s);
    }
    Some(acc)
}

/// A digit string's value only grows as more digits follow: if the prefix up
/// to `i` (with one more digit) already overflows 64 bits, so does the whole
/// string, provided the rest are digits too.
proof fn lemma_dec_val_mono(s: Seq<u8>, i: int)
    requires
        0 <= i < s.len(),
        all_digits(s.take(i)),
        48 <= s[i] <= 57,
        dec_val(s.take(i)) * 10 + (s[i] - 48) > u64::MAX,
    ensures
        !all_digits(s) || dec_val(s) > u64::MAX,
{
    if all_digits(s) {
        lemma_dec_val_grows(s, i + 1);
        assert(s.take(i + 1).drop_last() =~= s.take(i));
        assert(s.take(i + 1).last() == s[i]);
        assert(dec_val(s.take(i + 1)) > u64::MAX);
    }
}

/// The value of a digit string is at least the value of any of its prefixes.
proof fn lemma_dec_val_grows(s: Seq<u8>, i: int)
    requires
        0 <= i <= s.len(),
        all_digits(s),
    ensures
        dec_val(s) >= dec_val(s.take(i)),
        dec_val(s.take(i)) >= 0,
    decreases s.len() - i,
{
    lemma_dec_val_nonneg(s.take(i));
    if i == s.len() {
        assert(s.take(i) =~= s);
    } else {
        lemma_dec_val_grows(s, i + 1);
        assert(s.take(i + 1).drop_last() =~= s.take(i));
        assert(s.take(i + 1).last() == s[i]);
        lemma_dec_val_nonneg(s.take(i));
        assert(dec_val(s.take(i + 1)) == dec_val(s.take(i)) * 10 + (s[i] - 48));
        assert(dec_val(s.take(i)) * 10 >= dec_val(s.take(i))) by {
            vstd::arithmetic::mul::lemma_mul_is_commutative(dec_val(s.take(i)), 10);
            if dec_val(s.take(i)) > 0 {
                vstd::arithmetic::mul::lemma_mul_increases(10, dec_val(s.take(i)));
            }
        }
    }
}

/// A digit string's value is non-negative.
proof fn lemma_dec_val_nonneg(s: Seq<u8>)
    ensures
        all_digits(s) ==> dec_val(s) >= 0,
    decreases s.len(),
{
    if s.len() > 0 {
        lemma_dec_val_nonneg(s.drop_last());
        assert(all_digits(s) ==> all_digits(s.drop_last())) by {
            assert(forall|i: int|
                0 <= i < s.drop_last().len() ==> s.drop_last()[i] == s[i]);
        }
        if all_digits(s) {
            vstd::arithmetic::mul::lemma_mul_nonnegative(dec_val(s.drop_last()), 10);
            vstd::arithmetic::mul::lemma_mul_is_commutative(dec_val(s.drop_last()), 10);
        }
    }
}


// ----------------------------------------------------------------------------
// Byte helpers for account layouts
// ----------------------------------------------------------------------------

/// Byte `i` (big-endian) of a 128-bit value.
pub open spec fn be_byte128(x: u128, i: int) -> u8 {
    (x as int / pow256(15 - i) % 256) as u8
}

/// The sixteen big-endian bytes of a 128-bit value.
pub open spec fn be_bytes16(x: u128) -> Seq<u8> {
    Seq::new(16, |i: int| be_byte128(x, i))
}

/// The value of sixteen big-endian bytes.
pub open spec fn u128_from_be_spec(s: Seq<u8>) -> int {
    s[15] + 256 * (s[14] + 256 * (s[13] + 256 * (s[12] + 256 * (s[11] + 256 * (s[10] + 256 * (s[9]
        + 256 * (s[8] + 256 * (s[7] + 256 * (s[6] + 256 * (s[5] + 256 * (s[4] + 256 * (s[3] + 256
        * (s[2] + 256 * (s[1] + 256 * s[0]))))))))))))))
}

/// The eight little-endian bytes of a 64-bit value.
pub open spec fn le_bytes8(x: u64) -> Seq<u8> {
    Seq::new(8, |i: int| le_byte(x, i))
}

/// The values of the powers of 256 up to the sixteenth.
pub proof fn lemma_pow256_values()
    ensures
        pow256(0) == 1,
        pow256(1) == 0x100,
        pow256(2) == 0x1_0000,
        pow256(3) == 0x100_0000,
        pow256(4) == 0x1_0000_0000,
        pow256(5) == 0x100_0000_0000,
        pow256(6) == 0x1_0000_0000_0000,
        pow256(7) == 0x100_0000_0000_0000,
        pow256(8) == 0x1_0000_0000_0000_0000,
        pow256(9) == 0x100_0000_0000_0000_0000,
        pow256(10) == 0x1_0000_0000_0000_0000_0000,
        pow256(11) == 0x100_0000_0000_0000_0000_0000,
        pow256(12) == 0x1_0000_0000_0000_0000_0000_0000,
        pow256(13) == 0x100_0000_0000_0000_0000_0000_0000,
        pow256(14) == 0x1_0000_0000_0000_0000_0000_0000_0000,
        pow256(15) == 0x100_0000_0000_0000_0000_0000_0000_0000,
{
    assert(pow256(0) == 1);
    assert(pow256(1) == 0x100);
    assert(pow256(2) == 0x1_0000);
    assert(pow256(3) == 0x100_0000);
    assert(pow256(4) == 0x1_0000_0000);
    assert(pow256(5) == 0x100_0000_0000);
    assert(pow256(6) == 0x1_0000_0000_0000);
    assert(pow256(7) == 0x100_0000_0000_0000);
    assert(pow256(8) == 0x1_0000_0000_0000_0000);
    assert(pow256(9) == 0x100_0000_0000_0000_0000);
    assert(pow256(10) == 0x1_0000_0000_0000_0000_0000);
    assert(pow256(11) == 0x100_0000_0000_0000_0000_0000);
    assert(pow256(12) == 0x1_0000_0000_0000_0000_0000_0000);
    assert(pow256(13) == 0x100_0000_0000_0000_0000_0000_0000);
    assert(pow256(14) == 0x1_0000_0000_0000_0000_0000_0000_0000);
    assert(pow256(15) == 0x100_0000_0000_0000_0000_0000_0000_0000);
}

/// Recomposing a 128-bit value from its big-endian bytes gives it back.
pub proof fn lemma_u128_be_round_trip(x: u128)
    ensures
        u128_from_be_spec(be_bytes16(x)) == x,
{
    lemma_pow256_values();
    let v = x as int;
    vstd::arithmetic::div_mod::lemma_fundamental_div_mod(v, 256);
    assert(v / 0x100 / 256 == v / 0x1_0000) by {
        vstd::arithmetic::div_mod::lemma_div_denominator(v, 0x100, 256);
    }
    assert(v / 0x1_0000 / 256 == v / 0x100_0000) by {
        vstd::arithmetic::div_mod::lemma_div_denominator(v, 0x1_0000, 256);
    }
    assert(v / 0x100_0000 / 256 == v / 0x1_0000_0000) by {
        vstd::arithmetic::div_mod::lemma_div_denominator(v, 0x100_0000, 256);
    }
    assert(v / 0x1_0000_0000 / 256 == v / 0x100_0000_0000) by {
        vstd::arithmetic::div_mod::lemma_div_denominator(v, 0x1_0000_0000, 256);
    }
    assert(v / 0x100_0000_0000 / 256 == v / 0x1_0000_0000_0000) by {
        vstd::arithmetic::div_mod::lemma_div_denominator(v, 0x100_0000_0000, 256);
    }
    assert(v / 0x1_0000_0000_0000 / 256 == v / 0x100_0000_0000_0000) by {
        vstd::arithmetic::div_mod::lemma_div_denominator(v, 0x1_0000_0000_0000, 256);
    }
    assert(v / 0x100_0000_0000_0000 / 256 == v / 0x1_0000_0000_0000_0000) by {
        vstd::arithmetic::div_mod::lemma_div_denominator(v, 0x100_0000_0000_0000, 256);
    }
    assert(v / 0x1_0000_0000_0000_0000 / 256 == v / 0x100_0000_0000_0000_0000) by {
        vstd::arithmetic::div_mod::lemma_div_denominator(v, 0x1_0000_0000_0000_0000, 256);
    }
    assert(v / 0x100_0000_0000_0000_0000 / 256 == v / 0x1_0000_0000_0000_0000_0000) by {
        vstd::arithmetic::div_mod::lemma_div_denominator(v, 0x100_0000_0000_0000_0000, 256);
    }
    assert(v / 0x1_0000_0000_0000_0000_0000 / 256 == v / 0x100_0000_0000_0000_0000_0000) by {
        vstd::arithmetic::div_mod::lemma_div_denominator(v, 0x1_0000_0000_0000_0000_0000, 256);
    }
    assert(v / 0x100_0000_0000_0000_0000_0000 / 256 == v / 0x1_0000_0000_0000_0000_0000_0000) by {
        vstd::arithmetic::div_mod::lemma_div_denominator(v, 0x100_0000_0000_0000_0000_0000, 256);
    }
    assert(v / 0x1_0000_0000_0000_0000_0000_0000 / 256 == v
        / 0x100_0000_0000_0000_0000_0000_0000) by {
        vstd::arithmetic::div_mod::lemma_div_denominator(
            v,
            0x1_0000_0000_0000_0000_0000_0000,
            256,
        );
    }
    assert(v / 0x100_0000_0000_0000_0000_0000_0000 / 256 == v
        / 0x1_0000_0000_0000_0000_0000_0000_0000) by {
        vstd::arithmetic::div_mod::lemma_div_denominator(
            v,
            0x100_0000_0000_0000_0000_0000_0000,
            256,
        );
    }
    assert(v / 0x1_0000_0000_0000_0000_0000_0000_0000 / 256 == v
        / 0x100_0000_0000_0000_0000_0000_0000_0000) by {
        vstd::arithmetic::div_mod::lemma_div_denominator(
            v,
            0x1_0000_0000_0000_0000_0000_0000_0000,
            256,
        );
    }
    vstd::arithmetic::div_mod::lemma_fundamental_div_mod(v / 0x100, 256);
    vstd::arithmetic::div_mod::lemma_fundamental_div_mod(v / 0x1_0000, 256);
    vstd::arithmetic::div_mod::lemma_fundamental_div_mod(v / 0x100_0000, 256);
    vstd::arithmetic::div_mod::lemma_fundamental_div_mod(v / 0x1_0000_0000, 256);
    vstd::arithmetic::div_mod::lemma_fundamental_div_mod(v / 0x100_0000_0000, 256);
    vstd::arithmetic::div_mod::lemma_fundamental_div_mod(v / 0x1_0000_0000_0000, 256);
    vstd::arithmetic::div_mod::lemma_fundamental_div_mod(v / 0x100_0000_0000_0000, 256);
    vstd::arithmetic::div_mod::lemma_fundamental_div_mod(v / 0x1_0000_0000_0000_0000, 256);
    vstd::arithmetic::div_mod::lemma_fundamental_div_mod(v / 0x100_0000_0000_0000_0000, 256);
    vstd::arithmetic::div_mod::lemma_fundamental_div_mod(v / 0x1_0000_0000_0000_0000_0000, 256);
    vstd::arithmetic::div_mod::lemma_fundamental_div_mod(v / 0x100_0000_0000_0000_0000_0000, 256);
    vstd::arithmetic::div_mod::lemma_fundamental_div_mod(
        v / 0x1_0000_0000_0000_0000_0000_0000,
        256,
    );
    vstd::arithmetic::div_mod::lemma_fundamental_div_mod(
        v / 0x100_0000_0000_0000_0000_0000_0000,
        256,
    );
    vstd::arithmetic::div_mod::lemma_fundamental_div_mod(
        v / 0x1_0000_0000_0000_0000_0000_0000_0000,
        256,
    );
    assert(v / 0x100_0000_0000_0000_0000_0000_0000_0000 % 256 == v
        / 0x100_0000_0000_0000_0000_0000_0000_0000) by {
        assert(v / 0x100_0000_0000_0000_0000_0000_0000_0000 < 256) by {
            vstd::arithmetic::div_mod::lemma_div_is_ordered(
                v,
                0xffff_ffff_ffff_ffff_ffff_ffff_ffff_ffffu128 as int,
                0x100_0000_0000_0000_0000_0000_0000_0000,
            );
        }
        vstd::arithmetic::div_mod::lemma_div_pos_is_pos(
            v,
            0x100_0000_0000_0000_0000_0000_0000_0000,
        );
        vstd::arithmetic::div_mod::lemma_small_mod(
            (v / 0x100_0000_0000_0000_0000_0000_0000_0000) as nat,
            256nat,
        );
    }
    vstd::arithmetic::div_mod::lemma_fundamental_div_mod(
        v / 0x100_0000_0000_0000_0000_0000_0000_0000,
        256,
    );
}

/// Recomposing a 64-bit value from its little-endian bytes gives it back.
pub proof fn lemma_u64_le_round_trip(x: u64)
    ensures
        u64_from_le_spec(le_bytes8(x)) == x,
{
    lemma_pow256_values();
    lemma_le_recompose(x);
}

/// Appends the sixteen big-endian bytes of `x`.
pub fn push_u128_be(buf: &mut Vec<u8>, x: u128)
    ensures
        final(buf)@ == old(buf)@ + be_bytes16(x),
{
    proof {
        lemma_pow256_values();
    }
    let ghost base = buf@;
    buf.push((x / 0x100_0000_0000_0000_0000_0000_0000_0000 % 256) as u8);
    buf.push((x / 0x1_0000_0000_0000_0000_0000_0000_0000 % 256) as u8);
    buf.push((x / 0x100_0000_0000_0000_0000_0000_0000 % 256) as u8);
    buf.push((x / 0x1_0000_0000_0000_0000_0000_0000 % 256) as u8);
    buf.push((x / 0x100_0000_0000_0000_0000_0000 % 256) as u8);
    buf.push((x / 0x1_0000_0000_0000_0000_0000 % 256) as u8);
    buf.push((x / 0x100_0000_0000_0000_0000 % 256) as u8);
    buf.push((x / 0x1_0000_0000_0000_0000 % 256) as u8);
    buf.push((x / 0x100_0000_0000_0000 % 256) as u8);
    buf.push((x / 0x1_0000_0000_0000 % 256) as u8);
    buf.push((x / 0x100_0000_0000 % 256) as u8);
    buf.push((x / 0x1_0000_0000 % 256) as u8);
    buf.push((x / 0x100_0000 % 256) as u8);
    buf.push((x / 0x1_0000 % 256) as u8);
    buf.push((x / 0x100 % 256) as u8);
    buf.push((x % 256) as u8);
    proof {
        assert(buf@ =~= base + be_bytes16(x));
    }
}

/// Reads sixteen big-endian bytes starting at `off`.
pub fn read_u128_be(src: &[u8], off: usize) -> (r: u128)
    requires
        off + 16 <= src@.len(),
    ensures
        r == u128_from_be_spec(src@.subrange(off as int, off + 16)),
{
    let b0 = src[off] as u128;
    let b1 = src[off + 1] as u128;
    let b2 = src[off + 2] as u128;
    let b3 = src[off + 3] as u128;
    let b4 = src[off + 4] as u128;
    let b5 = src[off + 5] as u128;
    let b6 = src[off + 6] as u128;
    let b7 = src[off + 7] as u128;
    let b8 = src[off + 8] as u128;
    let b9 = src[off + 9] as u128;
    let b10 = src[off + 10] as u128;
    let b11 = src[off + 11] as u128;
    let b12 = src[off + 12] as u128;
    let b13 = src[off + 13] as u128;
    let b14 = src[off + 14] as u128;
    let t1: u128 = b1 + 256 * b0;
    let t2: u128 = b2 + 256 * t1;
    let t3: u128 = b3 + 256 * t2;
    let t4: u128 = b4 + 256 * t3;
    let t5: u128 = b5 + 256 * t4;
    let t6: u128 = b6 + 256 * t5;
    let t7: u128 = b7 + 256 * t6;
    let t8: u128 = b8 + 256 * t7;
    let t9: u128 = b9 + 256 * t8;
    let t10: u128 = b10 + 256 * t9;
    let t11: u128 = b11 + 256 * t10;
    let t12: u128 = b12 + 256 * t11;
    let t13: u128 = b13 + 256 * t12;
    let t14: u128 = b14 + 256 * t13;
    let r: u128 = (src[off + 15] as u128) + 256 * t14;
    proof {
        let w = src@.subrange(off as int, off + 16);
        assert(forall|i: int| 0 <= i < 16 ==> w[i] == src@[off + i]);
    }
    r
}

/// Appends the eight little-endian bytes of `x`.
pub fn push_u64_le(buf: &mut Vec<u8>, x: u64)
    ensures
        final(buf)@ == old(buf)@ + le_bytes8(x),
{
    proof {
        lemma_pow256_values();
    }
    let ghost base = buf@;
    buf.push((x % 256) as u8);
    buf.push((x / 0x100 % 256) as u8);
    buf.push((x / 0x1_0000 % 256) as u8);
    buf.push((x / 0x100_0000 % 256) as u8);
    buf.push((x / 0x1_0000_0000 % 256) as u8);
    buf.push((x / 0x100_0000_0000 % 256) as u8);
    buf.push((x / 0x1_0000_0000_0000 % 256) as u8);
    buf.push((x / 0x100_0000_0000_0000 % 256) as u8);
    proof {
        assert(buf@ =~= base + le_bytes8(x));
    }
}

/// Reads eight little-endian bytes starting at `off`.
pub fn read_u64_le(src: &[u8], off: usize) -> (r: u64)
    requires
        off + 8 <= src@.len(),
    ensures
        r == u64_from_le_spec(src@.subrange(off as int, off + 8)),
{
    let r: u64 = (src[off] as u64) + 256 * ((src[off + 1] as u64) + 256 * ((src[off + 2] as u64)
        + 256 * ((src[off + 3] as u64) + 256 * ((src[off + 4] as u64) + 256 * ((src[off + 5]
        as u64) + 256 * ((src[off + 6] as u64) + 256 * (src[off + 7] as u64)))))));
    proof {
        let ghost w = src@.subrange(off as int, off + 8);
        assert(forall|i: int| 0 <= i < 8 ==> w[i] == src@[off + i]);
    }
    r
}

} // verus!
