use vstd::prelude::*;
use crate::text::push_char;

verus! {

/// The 64-bit FNV-1a offset basis.
pub const FNV_OFFSET_BASIS: u64 = 0xcbf2_9ce4_8422_2325u64;

/// The 64-bit FNV-1a prime.
pub const FNV_PRIME: u64 = 0x0000_0100_0000_01b3u64;

/// The byte that separates an exercise's source from its checker when both are fingerprinted.
pub const SOURCE_CHECK_SEPARATOR: u8 = 0xffu8;

/// The 64-bit FNV-1a hash of a byte sequence: start from the offset basis, and for each byte
/// xor it in and multiply by the prime, wrapping.
pub open spec fn fnv1a(bytes: Seq<u8>) -> u64
    decreases bytes.len(),
{
    if bytes.len() == 0 {
        FNV_OFFSET_BASIS
    } else {
        (fnv1a(bytes.drop_last()) ^ (bytes.last() as u64)).wrapping_mul(FNV_PRIME)
    }
}

/// The lowercase hexadecimal digit for a value below 16.
pub open spec fn hex_char(digit: int) -> char {
    seq!['0', '1', '2', '3', '4', '5', '6', '7', '8', '9', 'a', 'b', 'c', 'd', 'e', 'f'][digit]
}

/// The last `width` hexadecimal digits of `value`, most significant first, padded with zeros.
pub open spec fn hex_digits(value: nat, width: nat) -> Seq<char>
    decreases width,
{
    if width == 0 {
        Seq::empty()
    } else {
        hex_digits(value / 16, (width - 1) as nat).push(hex_char((value % 16) as int))
    }
}

/// The fingerprint text of a byte sequence: its FNV-1a hash as 16 lowercase hex digits.
pub open spec fn fingerprint_text(bytes: Seq<u8>) -> Seq<char> {
    hex_digits(fnv1a(bytes) as nat, 16)
}

/// The bytes whose fingerprint identifies an exercise state: its source, a separator byte,
/// then its checker.
pub open spec fn completion_bytes(source: Seq<u8>, check: Seq<u8>) -> Seq<u8> {
    source + seq![SOURCE_CHECK_SEPARATOR] + check
}

fn hex_digit_char(digit: u64) -> (c: char)
    requires
        digit < 16,
    ensures
        c == hex_char(digit as int),
{
    let table = ['0', '1', '2', '3', '4', '5', '6', '7', '8', '9', 'a', 'b', 'c', 'd', 'e', 'f'];
    assert(table@ =~= seq!['0', '1', '2', '3', '4', '5', '6', '7', '8', '9', 'a', 'b', 'c', 'd', 'e', 'f']);
    table[digit as usize]
}

fn push_hex_digits(s: &mut String, value: u64, width: u64)
    ensures
        final(s)@ == old(s)@ + hex_digits(value as nat, width as nat),
    decreases width,
{
    if width > 0 {
        push_hex_digits(s, value / 16, width - 1);
        let c = hex_digit_char(value % 16);
        push_char(s, c);
        assert(old(s)@ + hex_digits(value as nat, width as nat) =~= old(s)@ + hex_digits(
            (value / 16) as nat,
            (width - 1) as nat,
        ) + seq![c]);
    } else {
        assert(old(s)@ + hex_digits(value as nat, 0) =~= old(s)@);
    }
}

/// The FNV-1a hash of the bytes, as 16 lowercase hexadecimal digits.
pub fn fingerprint_bytes(bytes: &[u8]) -> (fingerprint: String)
    ensures
        fingerprint@ == fingerprint_text(bytes@),
{
    let mut hash: u64 = FNV_OFFSET_BASIS;
    let mut i: usize = 0;
    while i < bytes.len()
        invariant
            i <= bytes@.len(),
            hash == fnv1a(bytes@.take(i as int)),
        decreases bytes@.len() - i,
    {
        assert(bytes@.take(i + 1).drop_last() =~= bytes@.take(i as int));
        hash = hash ^ (bytes[i] as u64);
        hash = hash.wrapping_mul(FNV_PRIME);
        i = i + 1;
    }
    assert(bytes@.take(bytes@.len() as int) =~= bytes@);
    let mut fingerprint = String::new();
    push_hex_digits(&mut fingerprint, hash, 16);
    assert(fingerprint@ =~= hex_digits(hash as nat, 16));
    fingerprint
}

/// The fingerprint of an exercise's source together with its checker, so that editing either
/// one changes it.
pub fn completion_fingerprint_of(source: &[u8], check: &[u8]) -> (fingerprint: String)
    ensures
        fingerprint@ == fingerprint_text(completion_bytes(source@, check@)),
{
    let mut combined: Vec<u8> = Vec::new();
    let mut i: usize = 0;
    while i < source.len()
        invariant
            i <= source@.len(),
            combined@ == source@.take(i as int),
        decreases source@.len() - i,
    {
        combined.push(source[i]);
        assert(source@.take(i as int).push(source@[i as int]) =~= source@.take(i + 1));
        i = i + 1;
    }
    combined.push(SOURCE_CHECK_SEPARATOR);
    let mut j: usize = 0;
    while j < check.len()
        invariant
            j <= check@.len(),
            combined@ == source@ + seq![SOURCE_CHECK_SEPARATOR] + check@.take(j as int),
        decreases check@.len() - j,
    {
        combined.push(check[j]);
        assert(check@.take(j as int).push(check@[j as int]) =~= check@.take(j + 1));
        j = j + 1;
    }
    assert(combined@ =~= completion_bytes(source@, check@));
    fingerprint_bytes(combined.as_slice())
}

/// Every fingerprint is 16 lowercase hexadecimal digits.
pub proof fn lemma_fingerprint_shape(bytes: Seq<u8>)
    ensures
        fingerprint_text(bytes).len() == 16,
        forall|i: int|
            0 <= i < 16 ==> {
                let c = #[trigger] fingerprint_text(bytes)[i];
                ('0' <= c <= '9') || ('a' <= c <= 'f')
            },
{
    lemma_hex_digits_shape(fnv1a(bytes) as nat, 16);
}

proof fn lemma_hex_digits_shape(value: nat, width: nat)
    ensures
        hex_digits(value, width).len() == width,
        forall|i: int|
            0 <= i < width ==> {
                let c = #[trigger] hex_digits(value, width)[i];
                ('0' <= c <= '9') || ('a' <= c <= 'f')
            },
    decreases width,
{
    if width > 0 {
        lemma_hex_digits_shape(value / 16, (width - 1) as nat);
        let d = (value % 16) as int;
        assert(('0' <= hex_char(d) <= '9') || ('a' <= hex_char(d) <= 'f'));
    }
}


/// The hash takes in every byte: appending a byte xors it into the hash of what came before
/// and multiplies by the prime, wrapping.
pub proof fn lemma_fnv1a_takes_every_byte(bytes: Seq<u8>, byte: u8)
    ensures
        fnv1a(bytes.push(byte)) == (fnv1a(bytes) ^ (byte as u64)).wrapping_mul(FNV_PRIME),
{
    assert(bytes.push(byte).drop_last() =~= bytes);
}

/// Multiplying by the inverse of the prime modulo 2^64 undoes a wrapping multiplication by it.
proof fn lemma_prime_has_inverse(v: u64)
    ensures
        ((v as int * FNV_PRIME as int) % 0x1_0000_0000_0000_0000 * 0xce96_5057_aff6_957b)
            % 0x1_0000_0000_0000_0000 == v as int,
{
    let m: int = 0x1_0000_0000_0000_0000;
    let p: int = FNV_PRIME as int;
    let inverse: int = 0xce96_5057_aff6_957b;
    assert((p * inverse) % m == 1);
    vstd::arithmetic::div_mod::lemma_mul_mod_noop_left(v as int * p, inverse, m);
    vstd::arithmetic::mul::lemma_mul_is_associative(v as int, p, inverse);
    vstd::arithmetic::div_mod::lemma_mul_mod_noop_right(v as int, p * inverse, m);
    vstd::arithmetic::div_mod::lemma_small_mod(v as nat, m as nat);
}

/// Multiplying by the prime, wrapping, loses nothing: the prime is odd, so it has an inverse
/// modulo 2^64.
proof fn lemma_prime_multiplication_injective(x: u64, y: u64)
    requires
        x.wrapping_mul(FNV_PRIME) == y.wrapping_mul(FNV_PRIME),
    ensures
        x == y,
{
    lemma_prime_has_inverse(x);
    lemma_prime_has_inverse(y);
}

/// Hashing one more byte keeps different states different.
proof fn lemma_step_keeps_difference(h1: u64, h2: u64, byte: u8)
    requires
        h1 != h2,
    ensures
        (h1 ^ (byte as u64)).wrapping_mul(FNV_PRIME) != (h2 ^ (byte as u64)).wrapping_mul(FNV_PRIME),
{
    let b = byte as u64;
    assert(h1 ^ b != h2 ^ b) by (bit_vector)
        requires
            h1 != h2,
    ;
    if (h1 ^ b).wrapping_mul(FNV_PRIME) == (h2 ^ b).wrapping_mul(FNV_PRIME) {
        lemma_prime_multiplication_injective(h1 ^ b, h2 ^ b);
    }
}

proof fn lemma_hash_differs_after(a: Seq<u8>, b: Seq<u8>, k: int, n: int)
    requires
        a.len() == b.len(),
        0 <= k < n <= a.len(),
        a[k] != b[k],
        forall|j: int| 0 <= j < a.len() && j != k ==> a[j] == b[j],
    ensures
        fnv1a(a.take(n)) != fnv1a(b.take(n)),
    decreases n,
{
    assert(a.take(n).drop_last() =~= a.take(n - 1));
    assert(b.take(n).drop_last() =~= b.take(n - 1));
    if n == k + 1 {
        assert(a.take(k) =~= b.take(k));
        let h = fnv1a(a.take(k));
        let x = a[k] as u64;
        let y = b[k] as u64;
        assert(h ^ x != h ^ y) by (bit_vector)
            requires
                x != y,
        ;
        if (h ^ x).wrapping_mul(FNV_PRIME) == (h ^ y).wrapping_mul(FNV_PRIME) {
            lemma_prime_multiplication_injective(h ^ x, h ^ y);
        }
    } else {
        lemma_hash_differs_after(a, b, k, n - 1);
        assert(a[n - 1] == b[n - 1]);
        lemma_step_keeps_difference(fnv1a(a.take(n - 1)), fnv1a(b.take(n - 1)), a[n - 1]);
    }
}

/// 16 to the power `n`.
pub open spec fn pow16(n: nat) -> nat
    decreases n,
{
    if n == 0 {
        1
    } else {
        16 * pow16((n - 1) as nat)
    }
}

proof fn lemma_hex_digits_injective(v: nat, w: nat, width: nat)
    requires
        v < pow16(width),
        w < pow16(width),
        hex_digits(v, width) == hex_digits(w, width),
    ensures
        v == w,
    decreases width,
{
    if width > 0 {
        let q = pow16((width - 1) as nat);
        assert(hex_digits(v, width).last() == hex_char((v % 16) as int));
        assert(hex_digits(w, width).last() == hex_char((w % 16) as int));
        assert(v % 16 == w % 16) by {
            let d = (v % 16) as int;
            let e = (w % 16) as int;
            assert(0 <= d < 16 && 0 <= e < 16);
            assert(hex_char(d) == hex_char(e));
        }
        assert(hex_digits(v, width).drop_last() =~= hex_digits(v / 16, (width - 1) as nat));
        assert(hex_digits(w, width).drop_last() =~= hex_digits(w / 16, (width - 1) as nat));
        assert(v / 16 < q) by (nonlinear_arith)
            requires
                v < 16 * q,
        ;
        assert(w / 16 < q) by (nonlinear_arith)
            requires
                w < 16 * q,
        ;
        lemma_hex_digits_injective(v / 16, w / 16, (width - 1) as nat);
        assert(v == 16 * (v / 16) + v % 16) by (nonlinear_arith);
        assert(w == 16 * (w / 16) + w % 16) by (nonlinear_arith);
    }
}

/// Editing any one byte changes the fingerprint: two inputs of the same length that differ in
/// exactly one byte, wherever it is, never share a fingerprint.
pub proof fn lemma_one_byte_edit_changes_fingerprint(a: Seq<u8>, b: Seq<u8>, k: int)
    requires
        a.len() == b.len(),
        0 <= k < a.len(),
        a[k] != b[k],
        forall|j: int| 0 <= j < a.len() && j != k ==> a[j] == b[j],
    ensures
        fingerprint_text(a) != fingerprint_text(b),
{
    lemma_hash_differs_after(a, b, k, a.len() as int);
    assert(a.take(a.len() as int) =~= a);
    assert(b.take(b.len() as int) =~= b);
    assert(pow16(16) == 0x1_0000_0000_0000_0000) by {
        reveal_with_fuel(pow16, 17);
    }
    if fingerprint_text(a) == fingerprint_text(b) {
        lemma_hex_digits_injective(fnv1a(a) as nat, fnv1a(b) as nat, 16);
    }
}

} // verus!
