use vstd::prelude::*;
use vstd::arithmetic::div_mod::{
    lemma_basic_div,
    lemma_div_denominator,
    lemma_fundamental_div_mod,
    lemma_mod_breakdown,
    lemma_small_mod,
};
use vstd::arithmetic::mul::lemma_mul_is_commutative;

verus! {

/// 256 to the power `n`.
pub open spec fn pow256(n: nat) -> nat
    decreases n,
{
    if n == 0 {
        1
    } else {
        256 * pow256((n - 1) as nat)
    }
}

/// 2 to the power `n`.
pub open spec fn pow_two(n: nat) -> nat
    decreases n,
{
    if n == 0 {
        1
    } else {
        2 * pow_two((n - 1) as nat)
    }
}

/// The number that `bytes` spell, least significant byte first.
pub open spec fn le_value(bytes: Seq<u8>) -> nat
    decreases bytes.len(),
{
    if bytes.len() == 0 {
        0
    } else {
        le_value(bytes.drop_last()) + bytes.last() as nat * pow256((bytes.len() - 1) as nat)
    }
}

/// The `len` low bytes of `value`, least significant byte first.
pub open spec fn le_bytes(value: nat, len: nat) -> Seq<u8> {
    Seq::new(len, |i: int| ((value / pow256(i as nat)) % 256) as u8)
}

/// The `len` low bytes of `value`, most significant byte first.
pub open spec fn be_bytes(value: nat, len: nat) -> Seq<u8> {
    Seq::new(len, |i: int| ((value / pow256((len - 1 - i) as nat)) % 256) as u8)
}

/// The number that `bytes` spell, most significant byte first.
pub open spec fn be_value(bytes: Seq<u8>) -> nat {
    le_value(bytes.reverse())
}

/// The number that `bits` spell, least significant bit first.
pub open spec fn bits_value(bits: Seq<bool>) -> nat
    decreases bits.len(),
{
    if bits.len() == 0 {
        0
    } else {
        bits_value(bits.drop_last()) + if bits.last() {
            pow_two((bits.len() - 1) as nat)
        } else {
            0
        }
    }
}

/// Bit `i` of `value`, counted from the least significant.
pub open spec fn bit_of(value: nat, i: nat) -> bool {
    (value / pow_two(i)) % 2 == 1
}

/// The `len` low bits of `value`, least significant bit first.
pub open spec fn le_bits(value: nat, len: nat) -> Seq<bool> {
    Seq::new(len, |i: int| bit_of(value, i as nat))
}

/// Where the chunk of `chunk_size` bytes that holds index `i` begins.
pub open spec fn chunk_start(i: int, chunk_size: int) -> int {
    i - i % chunk_size
}

/// Where the chunk that holds index `i` ends, in a sequence of `len` bytes:
/// the last chunk may be short.
pub open spec fn chunk_end(i: int, chunk_size: int, len: int) -> int {
    if chunk_start(i, chunk_size) + chunk_size <= len {
        chunk_start(i, chunk_size) + chunk_size
    } else {
        len
    }
}

/// `bytes` cut into chunks of `chunk_size` bytes, each chunk written backwards.
pub open spec fn reverse_chunks(bytes: Seq<u8>, chunk_size: nat) -> Seq<u8> {
    Seq::new(
        bytes.len(),
        |i: int|
            bytes[chunk_start(i, chunk_size as int) + chunk_end(
                i,
                chunk_size as int,
                bytes.len() as int,
            ) - 1 - i],
    )
}

/// Every power of 256 is positive.
pub proof fn lemma_pow256_positive(n: nat)
    ensures
        pow256(n) > 0,
    decreases n,
{
    if n > 0 {
        lemma_pow256_positive((n - 1) as nat);
    }
}

/// Every power of 2 is positive.
pub proof fn lemma_pow_two_positive(n: nat)
    ensures
        pow_two(n) > 0,
    decreases n,
{
    if n > 0 {
        lemma_pow_two_positive((n - 1) as nat);
    }
}

/// A higher power of 256 is not below a lower one.
pub proof fn lemma_pow256_grows(low: nat, high: nat)
    requires
        low <= high,
    ensures
        pow256(low) <= pow256(high),
    decreases high - low,
{
    if low < high {
        lemma_pow256_grows(low, (high - 1) as nat);
        lemma_pow256_positive((high - 1) as nat);
    }
}

/// A higher power of 2 is not below a lower one.
pub proof fn lemma_pow_two_grows(low: nat, high: nat)
    requires
        low <= high,
    ensures
        pow_two(low) <= pow_two(high),
    decreases high - low,
{
    if low < high {
        lemma_pow_two_grows(low, (high - 1) as nat);
        lemma_pow_two_positive((high - 1) as nat);
    }
}

/// 2 to the power `8 * n` is 256 to the power `n`: eight bits to the byte.
pub proof fn lemma_pow_two_of_bytes(n: nat)
    ensures
        pow_two(8 * n) == pow256(n),
    decreases n,
{
    if n > 0 {
        lemma_pow_two_of_bytes((n - 1) as nat);
        let m = (8 * (n - 1)) as nat;
        assert(pow_two(m + 8) == 256 * pow_two(m)) by {
            reveal_with_fuel(pow_two, 9);
        }
        assert(8 * n == m + 8);
    }
}

/// A number below 2 to the power `width` has no bit set from `width` on.
pub proof fn lemma_high_bits_clear(value: nat, width: nat, i: nat)
    requires
        value < pow_two(width),
        width <= i,
    ensures
        !bit_of(value, i),
{
    lemma_pow_two_grows(width, i);
    lemma_basic_div(value as int, pow_two(i) as int);
}

/// A number below 256 is spelt by itself and then zeros.
pub proof fn lemma_le_bytes_of_byte(value: nat, len: nat)
    requires
        value < 256,
        len > 0,
    ensures
        le_bytes(value, len)[0] == value,
        forall|i: int| 1 <= i < len ==> #[trigger] le_bytes(value, len)[i] == 0,
{
    assert(pow256(0) == 1);
    assert(pow256(1) == 256) by {
        reveal_with_fuel(pow256, 2);
    }
    assert forall|i: int| 1 <= i < len implies #[trigger] le_bytes(value, len)[i] == 0 by {
        lemma_pow256_grows(1, i as nat);
        lemma_basic_div(value as int, pow256(i as nat) as int);
    }
}

/// 256 to the 32 is 2 to the 256.
pub proof fn lemma_pow256_32()
    ensures
        pow256(32) == 0x1_0000000000000000_0000000000000000_0000000000000000_0000000000000000nat,
{
    reveal_with_fuel(pow256, 33);
}

/// `x % (b * p) == x % p + p * ((x / p) % b)`: the low digits, and the next one.
proof fn lemma_next_digit(x: nat, p: nat, b: nat)
    requires
        p > 0,
        b > 0,
    ensures
        x % (b * p) == x % p + p * ((x / p) % b),
{
    lemma_mod_breakdown(x as int, p as int, b as int);
    lemma_mul_is_commutative(p as int, b as int);
}

/// Spelling the low bytes of a number and reading them back gives the number
/// modulo 256 to the power of their count.
pub proof fn lemma_le_value_of_le_bytes(value: nat, len: nat)
    ensures
        le_value(le_bytes(value, len)) == value % pow256(len),
    decreases len,
{
    let bytes = le_bytes(value, len);
    if len == 0 {
        assert(value % 1 == 0);
    } else {
        let n = (len - 1) as nat;
        assert(bytes.drop_last() =~= le_bytes(value, n));
        lemma_le_value_of_le_bytes(value, n);
        lemma_pow256_positive(n);
        lemma_next_digit(value, pow256(n), 256);
        assert(bytes.last() as nat == (value / pow256(n)) % 256);
        assert(bytes.last() as nat * pow256(n) == pow256(n) * ((value / pow256(n)) % 256))
            by (nonlinear_arith)
            requires
                bytes.last() as nat == (value / pow256(n)) % 256,
        ;
    }
}

/// A number below 256 to the 32 is the value of its 32 low bytes.
pub proof fn lemma_le_value_of_le_bytes32(value: nat)
    requires
        value < pow256(32),
    ensures
        le_value(le_bytes(value, 32)) == value,
{
    lemma_le_value_of_le_bytes(value, 32);
    lemma_small_mod(value, pow256(32));
}

/// The most-significant-first spelling is the least-significant-first one
/// written backwards.
pub proof fn lemma_reverse_le_bytes(value: nat, len: nat)
    ensures
        le_bytes(value, len).reverse() == be_bytes(value, len),
{
    assert(le_bytes(value, len).reverse() =~= be_bytes(value, len));
}

/// Spelling the low bytes of a number most significant first and reading
/// them back gives the number modulo 256 to the power of their count: a limb
/// of 32 bytes holds every element of a field of less than 256 bits.
pub proof fn lemma_be_value_of_be_bytes(value: nat, len: nat)
    ensures
        be_value(be_bytes(value, len)) == value % pow256(len),
{
    assert(be_bytes(value, len).reverse() =~= le_bytes(value, len));
    lemma_le_value_of_le_bytes(value, len);
}

/// The low bits of a number spell the number modulo 2 to the power of their
/// count.
pub proof fn lemma_bits_value_of_le_bits(value: nat, len: nat)
    ensures
        bits_value(le_bits(value, len)) == value % pow_two(len),
    decreases len,
{
    let bits = le_bits(value, len);
    if len == 0 {
        assert(value % 1 == 0);
    } else {
        let n = (len - 1) as nat;
        assert(bits.drop_last() =~= le_bits(value, n));
        lemma_bits_value_of_le_bits(value, n);
        lemma_pow_two_positive(n);
        lemma_next_digit(value, pow_two(n), 2);
        let digit = (value / pow_two(n)) % 2;
        assert(bits.last() == (digit == 1));
        assert(digit == 0 || digit == 1);
        assert(pow_two(n) * digit == if digit == 1 {
            pow_two(n)
        } else {
            0
        }) by (nonlinear_arith)
            requires
                digit == 0 || digit == 1,
        ;
    }
}

/// Cutting two chunks laid end to end gives the two chunks, each backwards.
pub proof fn lemma_reverse_chunks_concat(first: Seq<u8>, rest: Seq<u8>, chunk_size: nat)
    requires
        chunk_size > 0,
        first.len() == chunk_size,
        rest.len() % chunk_size == 0,
    ensures
        reverse_chunks(first + rest, chunk_size) == first.reverse() + reverse_chunks(
            rest,
            chunk_size,
        ),
{
    let c = chunk_size as int;
    let whole = first + rest;
    let left = reverse_chunks(whole, chunk_size);
    let right = first.reverse() + reverse_chunks(rest, chunk_size);
    assert(left.len() == right.len());
    assert forall|i: int| 0 <= i < left.len() implies left[i] == right[i] by {
        if i < c {
            lemma_small_mod(i as nat, chunk_size);
            assert(chunk_start(i, c) == 0);
        } else {
            let j = i - c;
            lemma_fundamental_div_mod(j, c);
            lemma_fundamental_div_mod(i, c);
            assert(i % c == j % c) by (nonlinear_arith)
                requires
                    i == j + c,
                    c > 0,
            ;
            lemma_fundamental_div_mod(rest.len() as int, c);
            assert(chunk_start(j, c) + c <= rest.len()) by (nonlinear_arith)
                requires
                    0 <= j < rest.len(),
                    c > 0,
                    rest.len() % (c as nat) == 0,
                    chunk_start(j, c) == j - j % c,
            ;
            assert(chunk_start(i, c) == chunk_start(j, c) + c);
        }
    }
    assert(left =~= right);
}

/// One whole chunk, cut into chunks, is itself written backwards.
pub proof fn lemma_reverse_chunks_single(bytes: Seq<u8>)
    requires
        bytes.len() > 0,
    ensures
        reverse_chunks(bytes, bytes.len()) == bytes.reverse(),
{
    let out = reverse_chunks(bytes, bytes.len());
    assert forall|i: int| 0 <= i < bytes.len() implies out[i] == bytes.reverse()[i] by {
        lemma_small_mod(i as nat, bytes.len());
    }
    assert(out =~= bytes.reverse());
}

/// Appends the eight bytes of `value`, least significant first, to `out`.
pub fn push_u64_le(out: &mut Vec<u8>, value: u64)
    ensures
        final(out)@ == old(out)@ + le_bytes(value as nat, 8),
{
    let mut rest: u64 = value;
    let mut i: usize = 0;
    proof {
        assert(pow256(0) == 1);
        assert(out@ =~= old(out)@ + le_bytes(value as nat, 8).subrange(0, 0));
    }
    while i < 8
        invariant
            i <= 8,
            rest == value as nat / pow256(i as nat),
            out@ == old(out)@ + le_bytes(value as nat, 8).subrange(0, i as int),
        decreases 8 - i,
    {
        proof {
            lemma_pow256_positive(i as nat);
            lemma_div_denominator(value as int, pow256(i as nat) as int, 256);
            assert(pow256((i + 1) as nat) == 256 * pow256(i as nat));
            assert(pow256(i as nat) * 256 == 256 * pow256(i as nat)) by (nonlinear_arith);
        }
        out.push((rest % 256) as u8);
        rest = rest / 256;
        assert(out@ =~= old(out)@ + le_bytes(value as nat, 8).subrange(0, i + 1));
        i += 1;
    }
    assert(le_bytes(value as nat, 8).subrange(0, 8) =~= le_bytes(value as nat, 8));
}

/// Changes the byte order of every chunk of `chunk_size` bytes in `bytes`;
/// a last chunk that is short is turned round as well.
pub fn convert_endianness_vec(bytes: &[u8], chunk_size: usize) -> (out: Vec<u8>)
    requires
        chunk_size > 0,
    ensures
        out@ == reverse_chunks(bytes@, chunk_size as nat),
{
    let len = bytes.len();
    let mut out: Vec<u8> = Vec::with_capacity(len);
    let mut i: usize = 0;
    while i < len
        invariant
            i <= len,
            len == bytes@.len(),
            chunk_size > 0,
            out@.len() == i,
            forall|j: int|
                0 <= j < i ==> out@[j] == #[trigger] reverse_chunks(bytes@, chunk_size as nat)[j],
        decreases len - i,
    {
        assert(i % chunk_size <= i && i % chunk_size < chunk_size) by (nonlinear_arith)
            requires
                chunk_size > 0,
        ;
        let start = i - i % chunk_size;
        let end = if len - start < chunk_size {
            len
        } else {
            start + chunk_size
        };
        assert(start == chunk_start(i as int, chunk_size as int));
        assert(end == chunk_end(i as int, chunk_size as int, len as int));
        out.push(bytes[start + (end - 1 - i)]);
        i += 1;
    }
    assert(out@ =~= reverse_chunks(bytes@, chunk_size as nat));
    out
}

} // verus!
