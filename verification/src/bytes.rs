//! Little-endian numbers as byte sequences.

use vstd::prelude::*;

verus! {

/// The `len` bytes of `n`, least significant first.
pub open spec fn le_bytes(n: nat, len: nat) -> Seq<u8>
    decreases len,
{
    if len == 0 {
        Seq::empty()
    } else {
        seq![(n % 256) as u8] + le_bytes(n / 256, (len - 1) as nat)
    }
}

/// The number that `bytes` spell, least significant first.
pub open spec fn le_value(bytes: Seq<u8>) -> nat
    decreases bytes.len(),
{
    if bytes.len() == 0 {
        0
    } else {
        bytes[0] as nat + 256 * le_value(bytes.drop_first())
    }
}

/// The number that the `len` bytes of `bytes` from `at` on spell.
pub open spec fn le_at(bytes: Seq<u8>, at: int, len: int) -> nat {
    le_value(bytes.subrange(at, at + len))
}

/// One more than the largest number that `len` bytes hold.
pub open spec fn byte_bound(len: nat) -> nat
    decreases len,
{
    if len == 0 {
        1
    } else {
        256 * byte_bound((len - 1) as nat)
    }
}

pub proof fn lemma_byte_bounds()
    ensures
        byte_bound(2) == 0x1_0000,
        byte_bound(4) == 0x1_0000_0000,
        byte_bound(8) == 0x1_0000_0000_0000_0000,
{
    reveal_with_fuel(byte_bound, 9);
}

pub proof fn lemma_le_bytes_len(n: nat, len: nat)
    ensures
        le_bytes(n, len).len() == len,
    decreases len,
{
    if len > 0 {
        lemma_le_bytes_len(n / 256, (len - 1) as nat);
    }
}

/// Writing a number and reading it back gives the number.
pub proof fn lemma_le_round_trip(n: nat, len: nat)
    requires
        n < byte_bound(len),
    ensures
        le_bytes(n, len).len() == len,
        le_value(le_bytes(n, len)) == n,
    decreases len,
{
    if len > 0 {
        let rest = le_bytes(n / 256, (len - 1) as nat);
        lemma_le_round_trip(n / 256, (len - 1) as nat);
        assert(le_bytes(n, len).drop_first() =~= rest);
        assert(le_bytes(n, len)[0] == (n % 256) as u8);
    }
}

/// A number spelled by `bytes` is below the bound for their count.
pub proof fn lemma_le_value_bound(bytes: Seq<u8>)
    ensures
        le_value(bytes) < byte_bound(bytes.len()),
    decreases bytes.len(),
{
    if bytes.len() > 0 {
        lemma_le_value_bound(bytes.drop_first());
    }
}

/// The two's complement of a 16-bit sample.
pub open spec fn sample_bits(s: i16) -> nat {
    if s >= 0 {
        s as nat
    } else {
        (s + 0x1_0000) as nat
    }
}

/// The sample whose two's complement is `bits`.
pub open spec fn bits_sample(bits: nat) -> i16 {
    if bits < 0x8000 {
        bits as i16
    } else {
        (bits - 0x1_0000) as i16
    }
}

/// The samples one after another, two bytes each.
pub open spec fn samples_bytes(samples: Seq<i16>) -> Seq<u8>
    decreases samples.len(),
{
    if samples.len() == 0 {
        Seq::empty()
    } else {
        samples_bytes(samples.drop_last()) + le_bytes(sample_bits(samples.last()), 2)
    }
}

/// The `count` samples that `bytes` spell from `at` on.
pub open spec fn samples_at(bytes: Seq<u8>, at: int, count: nat) -> Seq<i16> {
    Seq::new(count, |i: int| bits_sample(le_at(bytes, at + 2 * i, 2)))
}

pub proof fn lemma_samples_bytes_len(samples: Seq<i16>)
    ensures
        samples_bytes(samples).len() == 2 * samples.len(),
    decreases samples.len(),
{
    if samples.len() > 0 {
        lemma_samples_bytes_len(samples.drop_last());
        lemma_le_bytes_len(sample_bits(samples.last()), 2);
    }
}

/// The bytes of sample `i` stand at offset `2 * i`.
pub proof fn lemma_sample_offset(samples: Seq<i16>, i: int)
    requires
        0 <= i < samples.len(),
    ensures
        samples_bytes(samples).len() == 2 * samples.len(),
        samples_bytes(samples).subrange(2 * i, 2 * i + 2) == le_bytes(sample_bits(samples[i]), 2),
    decreases samples.len(),
{
    lemma_samples_bytes_len(samples);
    lemma_samples_bytes_len(samples.drop_last());
    lemma_le_bytes_len(sample_bits(samples.last()), 2);
    let whole = samples_bytes(samples);
    let front = samples_bytes(samples.drop_last());
    if i == samples.len() - 1 {
        assert(whole.subrange(2 * i, 2 * i + 2) =~= le_bytes(sample_bits(samples[i]), 2));
    } else {
        lemma_sample_offset(samples.drop_last(), i);
        assert(whole.subrange(2 * i, 2 * i + 2) =~= front.subrange(2 * i, 2 * i + 2));
    }
}

/// Samples written after `prefix` are read back from behind it.
pub proof fn lemma_samples_round_trip(prefix: Seq<u8>, samples: Seq<i16>)
    ensures
        samples_at(prefix + samples_bytes(samples), prefix.len() as int, samples.len()) == samples,
{
    let at = prefix.len() as int;
    let bytes = prefix + samples_bytes(samples);
    lemma_byte_bounds();
    assert forall|i: int| 0 <= i < samples.len() implies #[trigger] samples_at(
        bytes,
        at,
        samples.len(),
    )[i] == samples[i] by {
        lemma_sample_offset(samples, i);
        lemma_le_round_trip(sample_bits(samples[i]), 2);
        assert(bytes.subrange(at + 2 * i, at + 2 * i + 2) =~= samples_bytes(samples).subrange(
            2 * i,
            2 * i + 2,
        ));
    }
    assert(samples_at(bytes, at, samples.len()) =~= samples);
}

/// Numbers stand least significant byte first: every byte counts 256 times what
/// the byte in front of it counts.
pub proof fn law_bytes_count_upward(bytes: Seq<u8>, at: int)
    requires
        0 <= at,
    ensures
        at + 2 <= bytes.len() ==> le_at(bytes, at, 2) == bytes[at] + 0x100 * bytes[at + 1],
        at + 4 <= bytes.len() ==> le_at(bytes, at, 4) == bytes[at] + 0x100 * bytes[at + 1]
            + 0x1_0000 * bytes[at + 2] + 0x100_0000 * bytes[at + 3],
        at + 8 <= bytes.len() ==> le_at(bytes, at, 8) == bytes[at] + 0x100 * bytes[at + 1]
            + 0x1_0000 * bytes[at + 2] + 0x100_0000 * bytes[at + 3] + 0x1_0000_0000 * (bytes[at + 4]
            + 0x100 * bytes[at + 5] + 0x1_0000 * bytes[at + 6] + 0x100_0000 * bytes[at + 7]),
{
    if at + 2 <= bytes.len() {
        lemma_le_step(bytes, at, 2);
        lemma_le_step(bytes, at + 1, 1);
    }
    if at + 4 <= bytes.len() {
        lemma_le_step(bytes, at, 4);
        lemma_le_step(bytes, at + 1, 3);
        lemma_le_step(bytes, at + 2, 2);
        lemma_le_step(bytes, at + 3, 1);
    }
    if at + 8 <= bytes.len() {
        lemma_le_step(bytes, at, 8);
        lemma_le_step(bytes, at + 1, 7);
        lemma_le_step(bytes, at + 2, 6);
        lemma_le_step(bytes, at + 3, 5);
        lemma_le_step(bytes, at + 4, 4);
        lemma_le_step(bytes, at + 5, 3);
        lemma_le_step(bytes, at + 6, 2);
        lemma_le_step(bytes, at + 7, 1);
    }
}

proof fn lemma_le_step(bytes: Seq<u8>, at: int, len: int)
    requires
        0 <= at,
        0 < len,
        at + len <= bytes.len(),
    ensures
        le_at(bytes, at, len) == bytes[at] + 256 * le_at(bytes, at + 1, len - 1),
        le_at(bytes, at + len, 0) == 0,
{
    let part = bytes.subrange(at, at + len);
    assert(part.drop_first() =~= bytes.subrange(at + 1, at + 1 + (len - 1)));
    assert(bytes.subrange(at + len, at + len).len() == 0);
}

/// A sample is its two bytes as a number, less 2^16 from 2^15 on.
pub proof fn law_samples_are_signed(bytes: Seq<u8>, at: int, count: nat, i: int)
    requires
        0 <= at,
        at + 2 * count <= bytes.len(),
        0 <= i < count,
    ensures
        samples_at(bytes, at, count).len() == count,
        ({
            let low = bytes[at + 2 * i];
            let high = bytes[at + 2 * i + 1];
            samples_at(bytes, at, count)[i] == low + 0x100 * high - (if high >= 0x80 {
                0x1_0000int
            } else {
                0
            })
        }),
{
    law_bytes_count_upward(bytes, at + 2 * i);
}

} // verus!
