//! The two RSA-style routines of the format: unwrapping the entry-table key and
//! decoding encrypted payloads in 128-byte blocks.
use crate::bytes::{push_u64, u64_bytes};
use crate::error::PakError;
use vstd::arithmetic::power::pow;
use vstd::prelude::*;

verus! {

/// The number whose little-endian bytes are `b`.
pub open spec fn le_nat(b: Seq<u8>) -> nat
    decreases b.len(),
{
    if b.len() == 0 {
        0
    } else {
        b[0] as nat + 256 * le_nat(b.drop_first())
    }
}

/// The shortest little-endian form: no zero top byte, zero itself as one byte.
pub open spec fn is_minimal_le(b: Seq<u8>) -> bool {
    b.len() >= 1 && (b.len() > 1 ==> b.last() != 0)
}

/// A number is zero only when all its bytes are.
proof fn lemma_le_nat_zero(b: Seq<u8>)
    requires
        le_nat(b) == 0,
    ensures
        forall|i: int| 0 <= i < b.len() ==> b[i] == 0,
    decreases b.len(),
{
    if b.len() > 0 {
        lemma_le_nat_zero(b.drop_first());
        assert forall|i: int| 0 <= i < b.len() implies b[i] == 0 by {
            if i > 0 {
                assert(b[i] == b.drop_first()[i - 1]);
            }
        }
    }
}

/// A minimal form other than the single zero byte is a positive number.
proof fn lemma_minimal_positive(b: Seq<u8>)
    requires
        is_minimal_le(b),
        !(b.len() == 1 && b[0] == 0),
    ensures
        le_nat(b) > 0,
{
    if le_nat(b) == 0 {
        lemma_le_nat_zero(b);
        assert(b[b.len() - 1] == 0);
    }
}

/// A number whose lowest byte is not zero is positive.
proof fn lemma_low_byte_positive(b: Seq<u8>)
    requires
        b.len() > 0,
        b[0] != 0,
    ensures
        le_nat(b) > 0,
{
}

/// Relies on num::BigUint::modpow, with BigUint::from_bytes_le and BigUint::to_bytes_le
/// converting: the modular power of little-endian numbers, in shortest little-endian
/// form. modpow panics on a zero modulus, which `requires` leaves out.
#[verifier::external_body]
fn modpow_le(base: &[u8], exponent: &[u8], modulus: &[u8]) -> (r: Vec<u8>)
    requires
        le_nat(modulus@) > 0,
    ensures
        le_nat(r@) == pow(le_nat(base@) as int, le_nat(exponent@)) % (le_nat(modulus@) as int),
        is_minimal_le(r@),
{
    let b = num::BigUint::from_bytes_le(base);
    let e = num::BigUint::from_bytes_le(exponent);
    let m = num::BigUint::from_bytes_le(modulus);
    b.modpow(&e, &m).to_bytes_le()
}

/// Relies on `/` of num::BigUint, with BigUint::from_bytes_le and
/// BigUint::to_u64_digits converting: the lowest 64-bit digit of the quotient, and none
/// when the quotient is zero (it then has no digits). Division by zero panics, which
/// `requires` leaves out.
#[verifier::external_body]
fn div_low_digit(num: &[u8], den: &[u8]) -> (r: Option<u64>)
    requires
        le_nat(den@) > 0,
    ensures
        le_nat(num@) / le_nat(den@) == 0 ==> r is None,
        le_nat(num@) / le_nat(den@) != 0 ==> r == Some(
            ((le_nat(num@) / le_nat(den@)) % 0x1_0000_0000_0000_0000) as u64,
        ),
{
    let q = num::BigUint::from_bytes_le(num) / num::BigUint::from_bytes_le(den);
    q.to_u64_digits().first().cloned()
}

/// Modulus of the entry-table key, little-endian.
pub open spec fn table_modulus() -> Seq<u8> {
    seq![
        0x7D, 0x0B, 0xF8, 0xC1, 0x7C, 0x23, 0xFD, 0x3B, 0xD4, 0x75, 0x16, 0xD2, 0x33, 0x21, 0xD8,
        0x10, 0x71, 0xF9, 0x7C, 0xD1, 0x34, 0x93, 0xBA, 0x77, 0x26, 0xFC, 0xAB, 0x2C, 0xEE, 0xDA,
        0xD9, 0x1C, 0x89, 0xE7, 0x29, 0x7B, 0xDD, 0x8A, 0xAE, 0x50, 0x39, 0xB6, 0x01, 0x6D, 0x21,
        0x89, 0x5D, 0xA5, 0xA1, 0x3E, 0xA2, 0xC0, 0x8C, 0x93, 0x13, 0x36, 0x65, 0xEB, 0xE8, 0xDF,
        0x06, 0x17, 0x67, 0x96, 0x06, 0x2B, 0xAC, 0x23, 0xED, 0x8C, 0xB7, 0x8B, 0x90, 0xAD, 0xEA,
        0x71, 0xC4, 0x40, 0x44, 0x9D, 0x1C, 0x7B, 0xBA, 0xC4, 0xB6, 0x2D, 0xD6, 0xD2, 0x4B, 0x62,
        0xD6, 0x26, 0xFC, 0x74, 0x20, 0x07, 0xEC, 0xE3, 0x59, 0x9A, 0xE6, 0xAF, 0xB9, 0xA8, 0x35,
        0x8B, 0xE0, 0xE8, 0xD3, 0xCD, 0x45, 0x65, 0xB0, 0x91, 0xC4, 0x95, 0x1B, 0xF3, 0x23, 0x1E,
        0xC6, 0x71, 0xCF, 0x3E, 0x35, 0x2D, 0x6B, 0xE3, 0x00,
    ]
}

/// The entry-table modulus as an array.
fn table_modulus_bytes() -> (r: [u8; 129])
    ensures
        r@ == table_modulus(),
{
    let r = [
        0x7D, 0x0B, 0xF8, 0xC1, 0x7C, 0x23, 0xFD, 0x3B, 0xD4, 0x75, 0x16, 0xD2, 0x33, 0x21, 0xD8,
        0x10, 0x71, 0xF9, 0x7C, 0xD1, 0x34, 0x93, 0xBA, 0x77, 0x26, 0xFC, 0xAB, 0x2C, 0xEE, 0xDA,
        0xD9, 0x1C, 0x89, 0xE7, 0x29, 0x7B, 0xDD, 0x8A, 0xAE, 0x50, 0x39, 0xB6, 0x01, 0x6D, 0x21,
        0x89, 0x5D, 0xA5, 0xA1, 0x3E, 0xA2, 0xC0, 0x8C, 0x93, 0x13, 0x36, 0x65, 0xEB, 0xE8, 0xDF,
        0x06, 0x17, 0x67, 0x96, 0x06, 0x2B, 0xAC, 0x23, 0xED, 0x8C, 0xB7, 0x8B, 0x90, 0xAD, 0xEA,
        0x71, 0xC4, 0x40, 0x44, 0x9D, 0x1C, 0x7B, 0xBA, 0xC4, 0xB6, 0x2D, 0xD6, 0xD2, 0x4B, 0x62,
        0xD6, 0x26, 0xFC, 0x74, 0x20, 0x07, 0xEC, 0xE3, 0x59, 0x9A, 0xE6, 0xAF, 0xB9, 0xA8, 0x35,
        0x8B, 0xE0, 0xE8, 0xD3, 0xCD, 0x45, 0x65, 0xB0, 0x91, 0xC4, 0x95, 0x1B, 0xF3, 0x23, 0x1E,
        0xC6, 0x71, 0xCF, 0x3E, 0x35, 0x2D, 0x6B, 0xE3, 0x00,
    ];
    assert(r@ =~= table_modulus());
    r
}

/// Modulus of payload blocks, little-endian.
pub open spec fn resource_modulus() -> Seq<u8> {
    seq![
        0x13, 0xD7, 0x9C, 0x89, 0x88, 0x91, 0x48, 0x10, 0xD7, 0xAA, 0x78, 0xAE, 0xF8, 0x59, 0xDF,
        0x7D, 0x3C, 0x43, 0xA0, 0xD0, 0xBB, 0x36, 0x77, 0xB5, 0xF0, 0x5C, 0x02, 0xAF, 0x65, 0xD8,
        0x77, 0x03, 0x00,
    ]
}

/// The payload modulus as an array.
fn resource_modulus_bytes() -> (r: [u8; 33])
    ensures
        r@ == resource_modulus(),
{
    let r = [
        0x13, 0xD7, 0x9C, 0x89, 0x88, 0x91, 0x48, 0x10, 0xD7, 0xAA, 0x78, 0xAE, 0xF8, 0x59, 0xDF,
        0x7D, 0x3C, 0x43, 0xA0, 0xD0, 0xBB, 0x36, 0x77, 0xB5, 0xF0, 0x5C, 0x02, 0xAF, 0x65, 0xD8,
        0x77, 0x03, 0x00,
    ];
    assert(r@ =~= resource_modulus());
    r
}

/// Exponent of payload blocks, little-endian.
pub open spec fn resource_exponent() -> Seq<u8> {
    seq![
        0xC0, 0xC2, 0x77, 0x1F, 0x5B, 0x34, 0x6A, 0x01, 0xC7, 0xD4, 0xD7, 0x85, 0x2E, 0x42, 0x2B,
        0x3B, 0x16, 0x3A, 0x17, 0x13, 0x16, 0xEA, 0x83, 0x30, 0x30, 0xDF, 0x3F, 0xF4, 0x25, 0x93,
        0x20, 0x01, 0x00,
    ]
}

/// The payload exponent as an array.
fn resource_exponent_bytes() -> (r: [u8; 33])
    ensures
        r@ == resource_exponent(),
{
    let r = [
        0xC0, 0xC2, 0x77, 0x1F, 0x5B, 0x34, 0x6A, 0x01, 0xC7, 0xD4, 0xD7, 0x85, 0x2E, 0x42, 0x2B,
        0x3B, 0x16, 0x3A, 0x17, 0x13, 0x16, 0xEA, 0x83, 0x30, 0x30, 0xDF, 0x3F, 0xF4, 0x25, 0x93,
        0x20, 0x01, 0x00,
    ];
    assert(r@ =~= resource_exponent());
    r
}

/// Exponent of the entry-table key, little-endian (65537).
pub open spec fn table_exponent() -> Seq<u8> {
    seq![0x01, 0x00, 0x01, 0x00]
}

/// The wrapped key padded with zeros (or cut) to 129 bytes.
pub open spec fn resized_key(k: Seq<u8>) -> Seq<u8> {
    if k.len() >= 129 {
        k.take(129)
    } else {
        k + Seq::new((129 - k.len()) as nat, |i: int| 0u8)
    }
}

/// Whether `k` is the unwrapped form of the wrapped entry-table key `w`.
pub open spec fn is_table_key(w: Seq<u8>, k: Seq<u8>) -> bool {
    &&& is_minimal_le(k)
    &&& le_nat(k) == pow(le_nat(resized_key(w)) as int, le_nat(table_exponent())) % (le_nat(
        table_modulus(),
    ) as int)
}

/// The keystream byte for table position `i`.
pub open spec fn table_key_byte(k: Seq<u8>, i: int) -> u8 {
    ((i + k[i % 32] * k[i % 29]) % 256) as u8
}

/// The table bytes XOR-ed with the keystream of key `k` (at least 32 bytes long).
pub open spec fn xor_table(data: Seq<u8>, k: Seq<u8>) -> Seq<u8> {
    Seq::new(data.len(), |i: int| data[i] ^ table_key_byte(k, i))
}

/// Pads or cuts a wrapped key to 129 bytes.
pub fn resize_key(key: &[u8]) -> (r: Vec<u8>)
    ensures
        r@ == resized_key(key@),
{
    let mut out: Vec<u8> = Vec::new();
    let mut i: usize = 0;
    while i < 129
        invariant
            i <= 129,
            out@.len() == i,
            forall|j: int| 0 <= j < i ==> out@[j] == resized_key(key@)[j],
        decreases 129 - i,
    {
        if i < key.len() {
            out.push(key[i]);
        } else {
            out.push(0);
        }
        i += 1;
    }
    assert(out@ =~= resized_key(key@));
    out
}

/// Unwraps the entry-table key.
fn decrypt_key(enc_key: &[u8]) -> (r: Vec<u8>)
    ensures
        is_table_key(enc_key@, r@),
{
    let padded = resize_key(enc_key);
    let m = table_modulus_bytes();
    let e: [u8; 4] = [0x01, 0x00, 0x01, 0x00];
    proof {
        lemma_low_byte_positive(m@);
        assert(e@ =~= table_exponent());
    }
    modpow_le(padded.as_slice(), e.as_slice(), m.as_slice())
}

/// XORs the table with the keystream of an unwrapped key of at least 32 bytes.
pub fn decrypt_pak_data_with_key(data: &[u8], key: &[u8]) -> (r: Vec<u8>)
    requires
        key@.len() >= 32,
    ensures
        r@ == xor_table(data@, key@),
{
    let mut out: Vec<u8> = Vec::new();
    let mut i: usize = 0;
    while i < data.len()
        invariant
            i <= data@.len(),
            key@.len() >= 32,
            out@.len() == i,
            forall|j: int| 0 <= j < i ==> out@[j] == xor_table(data@, key@)[j],
        decreases data@.len() - i,
    {
        let a = key[i % 32] as usize;
        let b = key[i % 29] as usize;
        assert(a * b <= 65025) by (nonlinear_arith)
            requires
                a <= 255,
                b <= 255,
        ;
        let k = (((i % 256) + (a * b) % 256) % 256) as u8;
        proof {
            vstd::arithmetic::div_mod::lemma_add_mod_noop(i as int, (a * b) as int, 256);
            assert((i as int % 256) % 256 == i as int % 256) by {
                vstd::arithmetic::div_mod::lemma_mod_twice(i as int, 256);
            }
            assert(((a * b) as int % 256) % 256 == (a * b) as int % 256) by {
                vstd::arithmetic::div_mod::lemma_mod_twice((a * b) as int, 256);
            }
            assert(k == table_key_byte(key@, i as int));
        }
        out.push(data[i] ^ k);
        i += 1;
    }
    assert(out@ =~= xor_table(data@, key@));
    out
}

/// Decrypts an entry table with a 128-byte wrapped key. Fails when the unwrapped key is
/// shorter than the 32 bytes the keystream reads.
pub fn decrypt_pak_data(data: &[u8], enc_key: &[u8]) -> (r: Result<Vec<u8>, PakError>)
    ensures
        match r {
            Ok(v) => exists|k: Seq<u8>|
                is_table_key(enc_key@, k) && k.len() >= 32 && v@ == #[trigger] xor_table(data@, k),
            Err(e) => e == PakError::InvalidCipherBlock && exists|k: Seq<u8>|
                #[trigger] is_table_key(enc_key@, k) && k.len() < 32,
        },
{
    let key = decrypt_key(enc_key);
    if key.len() < 32 {
        return Err(PakError::InvalidCipherBlock);
    }
    let v = decrypt_pak_data_with_key(data, key.as_slice());
    assert(is_table_key(enc_key@, key@) && key@.len() >= 32 && v@ == xor_table(data@, key@));
    Ok(v)
}

/// The divisor a payload block's key half stands for.
pub open spec fn block_divisor(block: Seq<u8>) -> int {
    pow(le_nat(block.subrange(0, 64)) as int, le_nat(resource_exponent())) % (le_nat(
        resource_modulus(),
    ) as int)
}

/// The plaintext of one 128-byte block: the low 64 bits of the data half divided by the
/// divisor, as eight little-endian bytes (eight zeros for a zero quotient).
pub open spec fn block_plain(block: Seq<u8>) -> Seq<u8> {
    let q = le_nat(block.subrange(64, 128)) as int / block_divisor(block);
    u64_bytes((q % 0x1_0000_0000_0000_0000) as u64)
}

/// The `i`-th 128-byte block of a payload body.
pub open spec fn block_at(body: Seq<u8>, i: int) -> Seq<u8> {
    body.subrange(128 * i, 128 * i + 128)
}

/// The plaintext of the first `n` blocks.
pub open spec fn blocks_plain(body: Seq<u8>, n: nat) -> Seq<u8>
    decreases n,
{
    if n == 0 {
        seq![]
    } else {
        blocks_plain(body, (n - 1) as nat) + block_plain(block_at(body, n - 1))
    }
}

/// The bytes without their trailing zeros.
pub open spec fn trim_zeros(s: Seq<u8>) -> Seq<u8>
    decreases s.len(),
{
    if s.len() > 0 && s.last() == 0 {
        trim_zeros(s.drop_last())
    } else {
        s
    }
}

/// Whether some whole block of the body has a zero divisor.
pub open spec fn has_zero_divisor(body: Seq<u8>) -> bool {
    exists|i: int| 0 <= i < body.len() / 128 && block_divisor(#[trigger] block_at(body, i)) == 0
}

/// Drops trailing zero bytes.
fn trim_trailing_zeros(v: &mut Vec<u8>)
    ensures
        final(v)@ == trim_zeros(old(v)@),
{
    while v.len() > 0 && v[v.len() - 1] == 0
        invariant
            trim_zeros(v@) == trim_zeros(old(v)@),
        decreases v@.len(),
    {
        v.pop();
    }
}

/// Decodes an encrypted payload: a `u64` size hint, then 128-byte blocks (a trailing
/// partial block is ignored); trailing zero bytes of the plaintext are dropped.
pub fn decrypt_resource_data(data: &[u8]) -> (r: Result<Vec<u8>, PakError>)
    ensures
        data@.len() < 8 ==> r == Err::<Vec<u8>, PakError>(PakError::UnexpectedEof),
        data@.len() >= 8 && has_zero_divisor(data@.skip(8)) ==> r == Err::<Vec<u8>, PakError>(
            PakError::InvalidCipherBlock,
        ),
        data@.len() >= 8 && !has_zero_divisor(data@.skip(8)) ==> r is Ok && r->Ok_0@ == trim_zeros(
            blocks_plain(data@.skip(8), ((data@.len() - 8) / 128) as nat),
        ),
{
    if data.len() < 8 {
        return Err(PakError::UnexpectedEof);
    }
    let ghost body = data@.skip(8);
    let n_blocks = (data.len() - 8) / 128;
    let m = resource_modulus_bytes();
    let e = resource_exponent_bytes();
    proof {
        lemma_low_byte_positive(m@);
    }
    let mut out: Vec<u8> = Vec::new();
    let mut i: usize = 0;
    while i < n_blocks
        invariant
            i <= n_blocks,
            n_blocks == (data@.len() - 8) / 128,
            body == data@.skip(8),
            m@ == resource_modulus(),
            e@ == resource_exponent(),
            le_nat(m@) > 0,
            out@ == blocks_plain(body, i as nat),
            forall|j: int| 0 <= j < i ==> block_divisor(#[trigger] block_at(body, j)) != 0,
        decreases n_blocks - i,
    {
        assert(128 * i + 128 <= data@.len() - 8) by (nonlinear_arith)
            requires
                i < n_blocks,
                n_blocks == (data@.len() - 8) / 128,
                data@.len() >= 8,
        ;
        let _len = data.len();
        let start = 8 + 128 * i;
        let key = vstd::slice::slice_subrange(data, start, start + 64);
        let half = vstd::slice::slice_subrange(data, start + 64, start + 128);
        proof {
            let blk = block_at(body, i as int);
            assert(key@ =~= blk.subrange(0, 64));
            assert(half@ =~= blk.subrange(64, 128));
        }
        let d = modpow_le(key, e.as_slice(), m.as_slice());
        if d.len() == 1 && d[0] == 0 {
            proof {
                assert(d@.drop_first().len() == 0);
                assert(le_nat(d@.drop_first()) == 0);
                assert(le_nat(d@) == 0);
                assert(block_divisor(block_at(body, i as int)) == 0);
            }
            return Err(PakError::InvalidCipherBlock);
        }
        proof {
            lemma_minimal_positive(d@);
        }
        let q = div_low_digit(half, d.as_slice());
        let digit = match q {
            Some(digit) => digit,
            None => 0,
        };
        push_u64(&mut out, digit);
        i += 1;
        proof {
            assert(blocks_plain(body, i as nat) == blocks_plain(body, (i - 1) as nat) + block_plain(
                block_at(body, i - 1),
            ));
        }
    }
    proof {
        assert(!has_zero_divisor(body));
    }
    trim_trailing_zeros(&mut out);
    Ok(out)
}

} // verus!
