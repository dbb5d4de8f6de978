//! Integers as bytes, and reading them from the front of a sequence of bytes.

use vstd::prelude::*;

verus! {

/// The number of values that `n` bytes can take.
pub open spec fn byte_range(n: nat) -> nat
    decreases n,
{
    if n == 0 {
        1
    } else {
        256 * byte_range((n - 1) as nat)
    }
}

/// The last `n` bytes of a number, the most significant first.
pub open spec fn be_bytes(value: nat, n: nat) -> Seq<u8>
    decreases n,
{
    if n == 0 {
        seq![]
    } else {
        be_bytes(value / 256, (n - 1) as nat).push((value % 256) as u8)
    }
}

/// The number that bytes stand for, the most significant first.
pub open spec fn be_value(bytes: Seq<u8>) -> nat
    decreases bytes.len(),
{
    if bytes.len() == 0 {
        0
    } else {
        be_value(bytes.drop_last()) * 256 + bytes.last() as nat
    }
}

/// The last `n` bytes of a number, the least significant first.
pub open spec fn le_bytes(value: nat, n: nat) -> Seq<u8>
    decreases n,
{
    if n == 0 {
        seq![]
    } else {
        seq![(value % 256) as u8] + le_bytes(value / 256, (n - 1) as nat)
    }
}

/// The number that bytes stand for, the least significant first.
pub open spec fn le_value(bytes: Seq<u8>) -> nat
    decreases bytes.len(),
{
    if bytes.len() == 0 {
        0
    } else {
        bytes[0] as nat + 256 * le_value(bytes.drop_first())
    }
}

/// `n` bytes of a number that `n` bytes can hold stand for that number again.
pub proof fn law_be_round_trip(value: nat, n: nat)
    requires
        value < byte_range(n),
    ensures
        be_bytes(value, n).len() == n,
        be_value(be_bytes(value, n)) == value,
    decreases n,
{
    if n > 0 {
        assert(value / 256 < byte_range((n - 1) as nat));
        law_be_round_trip(value / 256, (n - 1) as nat);
        assert(be_bytes(value, n).drop_last() =~= be_bytes(value / 256, (n - 1) as nat));
    }
}

/// Bytes are the bytes of the number that they stand for, which has no more of them.
pub proof fn law_be_value(bytes: Seq<u8>)
    ensures
        be_value(bytes) < byte_range(bytes.len()),
        be_bytes(be_value(bytes), bytes.len()) == bytes,
    decreases bytes.len(),
{
    if bytes.len() > 0 {
        law_be_value(bytes.drop_last());
        assert(bytes.drop_last().push(bytes.last()) =~= bytes);
    }
}

/// `n` bytes of a number that `n` bytes can hold, the least significant first, stand for that number
/// again.
pub proof fn law_le_round_trip(value: nat, n: nat)
    requires
        value < byte_range(n),
    ensures
        le_bytes(value, n).len() == n,
        le_value(le_bytes(value, n)) == value,
    decreases n,
{
    if n > 0 {
        assert(value / 256 < byte_range((n - 1) as nat));
        law_le_round_trip(value / 256, (n - 1) as nat);
        assert(le_bytes(value, n).drop_first() =~= le_bytes(value / 256, (n - 1) as nat));
    }
}

/// Bytes, the least significant first, are the bytes of the number that they stand for.
pub proof fn law_le_value(bytes: Seq<u8>)
    ensures
        le_value(bytes) < byte_range(bytes.len()),
        le_bytes(le_value(bytes), bytes.len()) == bytes,
    decreases bytes.len(),
{
    if bytes.len() > 0 {
        law_le_value(bytes.drop_first());
        assert(seq![bytes[0]] + bytes.drop_first() =~= bytes);
    }
}

/// How many values one, four and eight bytes can take.
pub proof fn lemma_byte_ranges()
    ensures
        byte_range(1) == 0x100,
        byte_range(4) == 0x1_0000_0000,
        byte_range(8) == 0x1_0000_0000_0000_0000,
{
    reveal_with_fuel(byte_range, 9);
}

/// `n` bytes are never more than `m` bytes where `n` is at most `m`.
proof fn lemma_byte_range_monotonic(n: nat, m: nat)
    requires
        n <= m,
    ensures
        byte_range(n) <= byte_range(m),
    decreases m,
{
    if n < m {
        lemma_byte_range_monotonic(n, (m - 1) as nat);
    }
}

/// Appends the last `n` bytes of a number, the most significant first.
pub fn put_be(buffer: &mut Vec<u8>, value: u64, n: u8)
    ensures
        final(buffer)@ == old(buffer)@ + be_bytes(value as nat, n as nat),
    decreases n,
{
    if n > 0 {
        put_be(buffer, value / 256, n - 1);
        buffer.push((value % 256) as u8);
        assert(buffer@ =~= old(buffer)@ + be_bytes(value as nat, n as nat));
    } else {
        assert(buffer@ =~= old(buffer)@ + be_bytes(value as nat, n as nat));
    }
}

/// Appends the last `n` bytes of a number, the least significant first.
pub fn put_le(buffer: &mut Vec<u8>, value: u64, n: u8)
    ensures
        final(buffer)@ == old(buffer)@ + le_bytes(value as nat, n as nat),
    decreases n,
{
    if n > 0 {
        buffer.push((value % 256) as u8);
        put_le(buffer, value / 256, n - 1);
        assert(buffer@ =~= old(buffer)@ + le_bytes(value as nat, n as nat));
    } else {
        assert(buffer@ =~= old(buffer)@ + le_bytes(value as nat, n as nat));
    }
}

/// Why a message could not be read.
#[derive(Debug, Clone, Copy, PartialEq, Eq, Structural)]
pub enum ReadError {
    /// The bytes ended before the message did.
    UnexpectedEof,
    /// The message holds more samples than there is room for.
    BufferTooSmall,
}

/// Bytes that are read from the front.
pub struct ByteReader<'a> {
    bytes: &'a [u8],
    pos: usize,
}

impl<'a> View for ByteReader<'a> {
    type V = Seq<u8>;

    /// The bytes that are still to be read.
    closed spec fn view(&self) -> Seq<u8> {
        self.bytes@.skip(self.pos as int)
    }
}

impl<'a> ByteReader<'a> {
    #[verifier::type_invariant]
    spec fn in_bounds(self) -> bool {
        self.pos <= self.bytes@.len()
    }

    /// A reader of the given bytes.
    pub fn new(bytes: &'a [u8]) -> (reader: Self)
        ensures
            reader@ == bytes@,
    {
        let reader = ByteReader { bytes, pos: 0 };
        assert(reader@ =~= bytes@);
        reader
    }

    /// The number of bytes that are still to be read.
    pub fn remaining(&self) -> (n: usize)
        ensures
            n == self@.len(),
    {
        proof {
            use_type_invariant(self);
        }
        self.bytes.len() - self.pos
    }

    /// Takes `n` bytes off the front; where there are fewer, takes those that there are and fails.
    fn take(&mut self, n: usize) -> (taken: Result<&'a [u8], ReadError>)
        ensures
            n <= old(self)@.len() ==> taken is Ok && taken->Ok_0@ == old(self)@.take(n as int)
                && final(self)@ == old(self)@.skip(n as int),
            n > old(self)@.len() ==> taken == Err::<&'a [u8], ReadError>(ReadError::UnexpectedEof)
                && final(self)@ == Seq::<u8>::empty(),
    {
        proof {
            use_type_invariant(&*self);
        }
        let len: usize = self.bytes.len();
        let start: usize = self.pos;
        if n > len - start {
            self.pos = len;
            assert(self@ =~= Seq::<u8>::empty());
            return Err(ReadError::UnexpectedEof);
        }
        self.pos = start + n;
        let taken = vstd::slice::slice_subrange(self.bytes, start, start + n);
        assert(taken@ =~= old(self)@.take(n as int));
        assert(self@ =~= old(self)@.skip(n as int));
        Ok(taken)
    }

    /// Reads a number of `n` bytes, the most significant first.
    pub fn read_be(&mut self, n: usize) -> (value: Result<u64, ReadError>)
        requires
            n <= 8,
        ensures
            n <= old(self)@.len() ==> value is Ok && value->Ok_0 == be_value(
                old(self)@.take(n as int),
            ) && final(self)@ == old(self)@.skip(n as int),
            n > old(self)@.len() ==> value == Err::<u64, ReadError>(ReadError::UnexpectedEof)
                && final(self)@ == Seq::<u8>::empty(),
    {
        let bytes = match self.take(n) {
            Ok(bytes) => bytes,
            Err(error) => {
                return Err(error);
            },
        };
        let mut value: u64 = 0;
        let mut i: usize = 0;
        while i < n
            invariant
                i <= n <= 8,
                bytes@.len() == n,
                value == be_value(bytes@.take(i as int)),
            decreases n - i,
        {
            proof {
                let prefix = bytes@.take(i + 1);
                assert(prefix.drop_last() =~= bytes@.take(i as int));
                law_be_value(prefix);
                lemma_byte_range_monotonic((i + 1) as nat, 8);
                lemma_byte_ranges();
            }
            value = value * 256 + bytes[i] as u64;
            i += 1;
        }
        assert(bytes@.take(n as int) =~= bytes@);
        Ok(value)
    }

    /// Reads a number of `n` bytes, the least significant first.
    pub fn read_le(&mut self, n: usize) -> (value: Result<u64, ReadError>)
        requires
            n <= 8,
        ensures
            n <= old(self)@.len() ==> value is Ok && value->Ok_0 == le_value(
                old(self)@.take(n as int),
            ) && final(self)@ == old(self)@.skip(n as int),
            n > old(self)@.len() ==> value == Err::<u64, ReadError>(ReadError::UnexpectedEof)
                && final(self)@ == Seq::<u8>::empty(),
    {
        let bytes = match self.take(n) {
            Ok(bytes) => bytes,
            Err(error) => {
                return Err(error);
            },
        };
        let mut value: u64 = 0;
        let mut i: usize = n;
        while i > 0
            invariant
                i <= n <= 8,
                bytes@.len() == n,
                value == le_value(bytes@.skip(i as int)),
            decreases i,
        {
            proof {
                let suffix = bytes@.skip(i - 1);
                assert(suffix.drop_first() =~= bytes@.skip(i as int));
                law_le_value(suffix);
                lemma_byte_range_monotonic((n - i + 1) as nat, 8);
                lemma_byte_ranges();
            }
            i -= 1;
            value = value * 256 + bytes[i] as u64;
        }
        assert(bytes@.skip(0) =~= bytes@);
        Ok(value)
    }
}

/// Bytes in which the most significant comes first are read as digits are: the bytes in front count
/// 256 times as much for each byte behind them, and one byte counts as itself.
pub proof fn law_be_value_joins(front: Seq<u8>, back: Seq<u8>, byte: u8)
    ensures
        be_value(front + back) == be_value(front) * vstd::arithmetic::power::pow(
            256,
            back.len(),
        ) + be_value(back),
        be_value(seq![byte]) == byte,
    decreases back.len(),
{
    reveal_with_fuel(be_value, 2);
    reveal(vstd::arithmetic::power::pow);
    assert(seq![byte].drop_last() =~= Seq::<u8>::empty());
    if back.len() == 0 {
        assert(front + back =~= front);
        assert(be_value(back) == 0);
        assert(vstd::arithmetic::power::pow(256, 0) == 1);
        assert(be_value(front) * 1 == be_value(front));
    } else {
        let rest = back.drop_last();
        law_be_value_joins(front, rest, byte);
        assert((front + back).drop_last() =~= front + rest);
        assert((front + back).last() == back.last());
        let x = be_value(front) as int;
        let p = vstd::arithmetic::power::pow(256, rest.len());
        assert(vstd::arithmetic::power::pow(256, back.len()) == 256 * p);
        assert(x * p * 256 == x * (256 * p)) by (nonlinear_arith);
    }
}

/// The last `n` bytes of a number are `n` bytes, and stand for what is left of the number when it is
/// divided by 256 to the power of `n`.
pub proof fn law_be_bytes_are_the_last(value: nat, n: nat)
    ensures
        be_bytes(value, n).len() == n,
        be_value(be_bytes(value, n)) == (value as int) % vstd::arithmetic::power::pow(256, n),
    decreases n,
{
    reveal(vstd::arithmetic::power::pow);
    if n > 0 {
        let m = (n - 1) as nat;
        let p = vstd::arithmetic::power::pow(256, m);
        law_be_bytes_are_the_last(value / 256, m);
        assert(be_bytes(value, n).drop_last() =~= be_bytes(value / 256, m));
        vstd::arithmetic::power::lemma_pow_positive(256, m);
        vstd::arithmetic::div_mod::lemma_mod_breakdown(value as int, 256, p);
        assert(be_value(be_bytes(value, n)) == ((value as int) / 256) % p * 256 + (value as int)
            % 256);
        assert(vstd::arithmetic::power::pow(256, n) == 256 * p);
    } else {
        assert(vstd::arithmetic::power::pow(256, 0) == 1);
    }
}

/// The two orders of bytes are the reverse of each other.
pub proof fn law_le_is_be_reversed(value: nat, n: nat, bytes: Seq<u8>)
    ensures
        le_bytes(value, n) == be_bytes(value, n).reverse(),
        le_value(bytes) == be_value(bytes.reverse()),
{
    lemma_le_bytes_reversed(value, n);
    lemma_le_value_reversed(bytes);
}

proof fn lemma_le_bytes_reversed(value: nat, n: nat)
    ensures
        le_bytes(value, n) == be_bytes(value, n).reverse(),
    decreases n,
{
    if n > 0 {
        lemma_le_bytes_reversed(value / 256, (n - 1) as nat);
    }
    assert(le_bytes(value, n) =~= be_bytes(value, n).reverse());
}

proof fn lemma_le_value_reversed(bytes: Seq<u8>)
    ensures
        le_value(bytes) == be_value(bytes.reverse()),
    decreases bytes.len(),
{
    if bytes.len() > 0 {
        lemma_le_value_reversed(bytes.drop_first());
        assert(bytes.reverse().drop_last() =~= bytes.drop_first().reverse());
        assert(bytes.reverse().last() == bytes[0]);
    }
}

} // verus!
