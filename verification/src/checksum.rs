//! The Internet checksum of RFC 1071.

use vstd::prelude::*;

verus! {

/// The number of 16-bit words that `data` holds, the last one padded where the
/// length is odd.
pub open spec fn word_count(data: Seq<u8>) -> nat {
    ((data.len() + 1) / 2) as nat
}

/// The `i`-th 16-bit word of `data`, big-endian. A trailing single byte is the
/// high-order byte of its word, the low-order byte being zero.
pub open spec fn word_at(data: Seq<u8>, i: int) -> int {
    data[2 * i] * 256 + if 2 * i + 1 < data.len() {
        data[2 * i + 1] as int
    } else {
        0
    }
}

/// The sum of the first `n` words of `data`.
pub open spec fn words_sum(data: Seq<u8>, n: nat) -> int
    decreases n,
{
    if n == 0 {
        0
    } else {
        words_sum(data, (n - 1) as nat) + word_at(data, n - 1)
    }
}

/// The sum of all the words of `data`.
pub open spec fn total_sum(data: Seq<u8>) -> int {
    words_sum(data, word_count(data))
}

/// Folds the carries out of the low 16 bits back into them, until none remains.
pub open spec fn end_around_carry(sum: int) -> int
    decreases sum,
{
    if sum < 0x10000 {
        sum
    } else {
        end_around_carry(sum % 0x10000 + sum / 0x10000)
    }
}

/// The one's complement sum of the words of `data`.
pub open spec fn ones_complement_sum(data: Seq<u8>) -> int {
    end_around_carry(total_sum(data))
}

/// The checksum of `data`: the one's complement of its one's complement sum.
pub open spec fn internet_checksum(data: Seq<u8>) -> int {
    0xFFFF - ones_complement_sum(data)
}

/// Data that carries its own checksum is valid when its sum folds to `0xFFFF`.
pub open spec fn verifies(data: Seq<u8>) -> bool {
    ones_complement_sum(data) == 0xFFFF
}

/// Folding the carries of a sum that is not negative leaves zero as it is and
/// takes every other sum to the one value in `1..=0xFFFF` that differs from it
/// by a multiple of `0xFFFF`.
pub proof fn lemma_end_around_carry(sum: int)
    requires
        sum >= 0,
    ensures
        end_around_carry(sum) == if sum == 0 {
            0
        } else {
            (sum - 1) % 0xFFFF + 1
        },
    decreases sum,
{
    if sum >= 0x10000 {
        let folded = sum % 0x10000 + sum / 0x10000;
        lemma_end_around_carry(folded);
        assert(sum - folded == 0xFFFF * (sum / 0x10000));
        assert((sum - 1) % 0xFFFF == (folded - 1) % 0xFFFF) by {
            vstd::arithmetic::div_mod::lemma_mod_multiples_vanish(
                sum / 0x10000,
                folded - 1,
                0xFFFF,
            );
        }
    }
}

/// A sum may be folded before more is added to it.
pub proof fn lemma_fold_then_add(sum: int, word: int)
    requires
        sum >= 0,
        word >= 0,
    ensures
        end_around_carry(end_around_carry(sum) + word) == end_around_carry(sum + word),
{
    lemma_end_around_carry(sum);
    lemma_end_around_carry(sum + word);
    lemma_end_around_carry(end_around_carry(sum) + word);
    if sum > 0 {
        let folded = (sum - 1) % 0xFFFF + 1;
        assert(sum - folded == 0xFFFF * ((sum - 1) / 0xFFFF));
        vstd::arithmetic::div_mod::lemma_mod_multiples_vanish(
            (sum - 1) / 0xFFFF,
            folded + word - 1,
            0xFFFF,
        );
    }
}

/// No sum of words is negative.
pub proof fn lemma_words_sum_nonnegative(data: Seq<u8>, n: nat)
    requires
        n <= word_count(data),
    ensures
        words_sum(data, n) >= 0,
    decreases n,
{
    if n > 0 {
        lemma_words_sum_nonnegative(data, (n - 1) as nat);
    }
}

proof fn lemma_words_sum_with_checksum(before: Seq<u8>, after: Seq<u8>, k: int, n: nat)
    requires
        before.len() == after.len(),
        0 <= k < word_count(before),
        n <= word_count(before),
        forall|j: int|
            0 <= j < word_count(before) && j != k ==> #[trigger] word_at(after, j) == word_at(
                before,
                j,
            ),
    ensures
        words_sum(after, n) == words_sum(before, n) + if n > k {
            word_at(after, k) - word_at(before, k)
        } else {
            0
        },
    decreases n,
{
    if n > 0 {
        lemma_words_sum_with_checksum(before, after, k, (n - 1) as nat);
    }
}

/// Where one word of the data is zero, writing the checksum of the data into
/// that word gives data that verifies.
pub proof fn lemma_checksum_verifies(before: Seq<u8>, after: Seq<u8>, k: int)
    requires
        before.len() == after.len(),
        0 <= k < word_count(before),
        word_at(before, k) == 0,
        word_at(after, k) == internet_checksum(before),
        forall|j: int|
            0 <= j < word_count(before) && j != k ==> #[trigger] word_at(after, j) == word_at(
                before,
                j,
            ),
    ensures
        verifies(after),
{
    let count = word_count(before);
    lemma_words_sum_with_checksum(before, after, k, count);
    lemma_words_sum_nonnegative(before, count);
    lemma_words_sum_nonnegative(after, count);
    let sum = total_sum(before);
    lemma_end_around_carry(sum);
    lemma_end_around_carry(total_sum(after));
    if sum > 0 {
        let folded = (sum - 1) % 0xFFFF + 1;
        assert(sum - folded == 0xFFFF * ((sum - 1) / 0xFFFF));
        assert(total_sum(after) == 0xFFFF * ((sum - 1) / 0xFFFF + 1));
        vstd::arithmetic::div_mod::lemma_mod_multiples_vanish(
            (sum - 1) / 0xFFFF,
            0xFFFF - 1,
            0xFFFF,
        );
    }
}

proof fn lemma_words_sum_with_changed_byte(data: Seq<u8>, i: int, byte: u8, n: nat)
    requires
        0 <= i < data.len(),
        n <= word_count(data),
    ensures
        words_sum(data.update(i, byte), n) == words_sum(data, n) + if n > i / 2 {
            (byte - data[i]) * if i % 2 == 0 {
                256int
            } else {
                1int
            }
        } else {
            0
        },
    decreases n,
{
    if n > 0 {
        lemma_words_sum_with_changed_byte(data, i, byte, (n - 1) as nat);
    }
}

/// The checksum finds every change of a single byte: where data verifies, the
/// same data with one byte replaced by another value does not.
pub proof fn lemma_single_byte_change_is_found(data: Seq<u8>, i: int, byte: u8)
    requires
        verifies(data),
        0 <= i < data.len(),
        byte != data[i],
    ensures
        !verifies(data.update(i, byte)),
{
    let changed = data.update(i, byte);
    let count = word_count(data);
    lemma_words_sum_with_changed_byte(data, i, byte, count);
    lemma_words_sum_nonnegative(data, count);
    lemma_words_sum_nonnegative(changed, count);
    let sum = total_sum(data);
    let sum_changed = total_sum(changed);
    lemma_end_around_carry(sum);
    lemma_end_around_carry(sum_changed);
    assert(sum == 0xFFFF * ((sum - 1) / 0xFFFF + 1));
    if sum_changed > 0 && (sum_changed - 1) % 0xFFFF + 1 == 0xFFFF {
        assert(sum_changed == 0xFFFF * ((sum_changed - 1) / 0xFFFF + 1));
        assert(false);
    }
}

/// The one's complement sum of `data`, before the final complement.
pub fn calculate_1s_complement_sum(data: &[u8]) -> (r: u16)
    ensures
        r == ones_complement_sum(data@),
{
    let n = data.len();
    let count: usize = n / 2 + n % 2;
    let mut sum: u32 = 0;
    let mut k: usize = 0;
    while k < count
        invariant
            n == data@.len(),
            count == word_count(data@),
            k <= count,
            sum <= 0xFFFF,
            sum == end_around_carry(words_sum(data@, k as nat)),
        decreases count - k,
    {
        let at: usize = 2 * k;
        let high: u32 = data[at] as u32;
        let low: u32 = if at + 1 < n {
            data[at + 1] as u32
        } else {
            0
        };
        let word: u32 = high * 256 + low;
        proof {
            lemma_words_sum_nonnegative(data@, k as nat);
            lemma_fold_then_add(words_sum(data@, k as nat), word as int);
            assert(word == word_at(data@, k as int));
        }
        sum = sum + word;
        let ghost unfolded = sum as int;
        if sum > 0xFFFF {
            sum = sum % 0x10000 + sum / 0x10000;
        }
        assert(sum == end_around_carry(unfolded)) by {
            assert(end_around_carry(sum as int) == sum);
        }
        k = k + 1;
    }
    sum as u16
}

/// The RFC 1071 checksum of `data`.
pub fn calculate_checksum_rfc1071(data: &[u8]) -> (r: u16)
    ensures
        r == internet_checksum(data@),
{
    let sum = calculate_1s_complement_sum(data);
    proof {
        lemma_words_sum_nonnegative(data@, word_count(data@));
        lemma_end_around_carry(total_sum(data@));
    }
    0xFFFF - sum
}

} // verus!
