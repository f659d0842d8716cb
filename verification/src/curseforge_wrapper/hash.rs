//! The whitespace-insensitive 32-bit fingerprint by which the
//! fingerprint-addressed provider looks files up.

use vstd::prelude::*;

verus! {

/// The multiplier of every mixing step.
pub const MULTIPLEX: u32 = 1540483477;

/// Space, tab, carriage return and line feed are left out of a fingerprint.
pub open spec fn spec_is_whitespace(c: u8) -> bool {
    c == 0x20 || c == 0x09 || c == 0x0d || c == 0x0a
}

/// The bytes of `data` that count, in their order.
pub open spec fn normalised(data: Seq<u8>) -> Seq<u8> {
    data.filter(|c: u8| !spec_is_whitespace(c))
}

/// The lowest `k` bytes of the little-endian word that starts at `start`.
pub open spec fn packed(s: Seq<u8>, start: int, k: nat) -> u32
    decreases k,
{
    if k == 0 {
        0
    } else {
        packed(s, start, (k - 1) as nat) | ((s[start + k - 1] as u32) << ((8 * (k - 1)) as u32))
    }
}

/// One full word, scrambled before it is folded into the seed.
pub open spec fn spec_mix(w: u32) -> u32 {
    let m = w.wrapping_mul(MULTIPLEX);
    (m ^ (m >> 24)).wrapping_mul(MULTIPLEX)
}

/// The seed after the first `n` full words of `s` were folded in.
pub open spec fn folded(s: Seq<u8>, seed: u32, n: nat) -> u32
    decreases n,
{
    if n == 0 {
        seed
    } else {
        folded(s, seed, (n - 1) as nat).wrapping_mul(MULTIPLEX) ^ spec_mix(
            packed(s, 4 * (n - 1), 4),
        )
    }
}

/// The last two scrambling steps.
pub open spec fn avalanche(seed: u32) -> u32 {
    let h = (seed ^ (seed >> 13)).wrapping_mul(MULTIPLEX);
    h ^ (h >> 15)
}

/// The fingerprint of a sequence that holds no whitespace.
pub open spec fn fingerprint_of_normalised(s: Seq<u8>) -> u32 {
    let seed = ((s.len() % 0x1_0000_0000) as u32) ^ 1u32;
    let words = s.len() / 4;
    let rest = s.len() % 4;
    let body = folded(s, seed, words);
    let whole = if rest == 0 {
        body
    } else {
        (body ^ packed(s, (4 * words) as int, rest)).wrapping_mul(MULTIPLEX)
    };
    avalanche(whole)
}

/// The fingerprint of `data`.
pub open spec fn fingerprint(data: Seq<u8>) -> u32 {
    fingerprint_of_normalised(normalised(data))
}

/// `p` is how `s` begins.
pub open spec fn begins_with(s: Seq<u8>, p: Seq<u8>) -> bool {
    &&& p.len() <= s.len()
    &&& forall|j: int| 0 <= j < p.len() ==> s[j] == p[j]
}

/// Taking one more byte of the input adds it to the normalised bytes, unless it is whitespace.
pub proof fn lemma_normalised_step(data: Seq<u8>, i: int)
    requires
        0 <= i < data.len(),
    ensures
        normalised(data.take(i + 1)) == if spec_is_whitespace(data[i]) {
            normalised(data.take(i))
        } else {
            normalised(data.take(i)).push(data[i])
        },
{
    reveal(Seq::filter);
    assert(data.take(i + 1).drop_last() =~= data.take(i));
}

/// A packed word reads only the bytes it covers.
pub proof fn lemma_packed_extends(s: Seq<u8>, p: Seq<u8>, start: int, k: nat)
    requires
        begins_with(s, p),
        0 <= start,
        start + k <= p.len(),
    ensures
        packed(s, start, k) == packed(p, start, k),
    decreases k,
{
    if k > 0 {
        lemma_packed_extends(s, p, start, (k - 1) as nat);
    }
}

/// Folding the first `n` words reads only those words.
pub proof fn lemma_folded_extends(s: Seq<u8>, p: Seq<u8>, seed: u32, n: nat)
    requires
        begins_with(s, p),
        4 * n <= p.len(),
    ensures
        folded(s, seed, n) == folded(p, seed, n),
    decreases n,
{
    if n > 0 {
        lemma_folded_extends(s, p, seed, (n - 1) as nat);
        lemma_packed_extends(s, p, 4 * (n - 1), 4);
    }
}

/// Inputs that differ only in whitespace have one fingerprint.
pub proof fn lemma_fingerprint_reads_normalised(a: Seq<u8>, b: Seq<u8>)
    requires
        normalised(a) == normalised(b),
    ensures
        fingerprint(a) == fingerprint(b),
{
}

/// A whitespace byte put in anywhere leaves the fingerprint as it was.
pub proof fn lemma_fingerprint_insert_whitespace(data: Seq<u8>, i: int, w: u8)
    requires
        0 <= i <= data.len(),
        spec_is_whitespace(w),
    ensures
        fingerprint(data.insert(i, w)) == fingerprint(data),
{
    let keep = |c: u8| !spec_is_whitespace(c);
    let head = data.take(i);
    let rest = data.skip(i);
    assert(data.insert(i, w) =~= head + seq![w] + rest);
    assert(data =~= head + rest);
    Seq::filter_distributes_over_add(head + seq![w], rest, keep);
    Seq::filter_distributes_over_add(head, seq![w], keep);
    Seq::filter_distributes_over_add(head, rest, keep);
    assert(seq![w].filter(keep) =~= Seq::<u8>::empty()) by {
        reveal_with_fuel(Seq::filter, 2);
        assert(seq![w].drop_last() =~= Seq::<u8>::empty());
        assert(seq![w].last() == w);
    }
    assert(normalised(data.insert(i, w)) =~= normalised(data));
}

/// A whitespace byte taken out anywhere leaves the fingerprint as it was.
pub proof fn lemma_fingerprint_remove_whitespace(data: Seq<u8>, i: int)
    requires
        0 <= i < data.len(),
        spec_is_whitespace(data[i]),
    ensures
        fingerprint(data.remove(i)) == fingerprint(data),
{
    assert(data.remove(i).insert(i, data[i]) =~= data);
    lemma_fingerprint_insert_whitespace(data.remove(i), i, data[i]);
}

pub fn is_whitespace(c: u8) -> (r: bool)
    ensures
        r == spec_is_whitespace(c),
{
    c == 0x20 || c == 0x09 || c == 0x0d || c == 0x0a
}

pub struct MurmurHash2;

impl MurmurHash2 {
    /// The fingerprint of `data`: whitespace is passed over, the other bytes
    /// are packed into little-endian words and folded into the seed.
    pub fn hash(data: &[u8]) -> (h: u32)
        ensures
            h == fingerprint(data@),
    {
        let n_length: u32 = MurmurHash2::normalise(data);
        let seed0: u32 = 1u32 ^ n_length;
        let mut seed: u32 = seed0;
        let mut num_1: u32 = 0;
        let mut num_2: u32 = 0;
        let ghost mut p: Seq<u8> = Seq::empty();
        let mut i: usize = 0;
        proof {
            assert(data@.take(0) =~= Seq::<u8>::empty());
            reveal(Seq::filter);
            assert(1u32 ^ n_length == n_length ^ 1u32) by (bit_vector);
        }
        while i < data.len()
            invariant
                i <= data.len(),
                p == normalised(data@.take(i as int)),
                num_2 == 8 * (p.len() % 4),
                num_1 == packed(p, (4 * (p.len() / 4)) as int, p.len() % 4),
                seed == folded(p, seed0, p.len() / 4),
            decreases data.len() - i,
        {
            let c: u8 = data[i];
            proof {
                lemma_normalised_step(data@, i as int);
            }
            if !is_whitespace(c) {
                let ghost q = p.push(c);
                proof {
                    assert(begins_with(q, p));
                    lemma_packed_extends(q, p, (4 * (p.len() / 4)) as int, p.len() % 4);
                    lemma_folded_extends(q, p, seed0, p.len() / 4);
                    assert(q[(4 * (p.len() / 4) + p.len() % 4) as int] == c);
                }
                num_1 = num_1 | ((c as u32) << num_2);
                num_2 = num_2 + 8;
                assert(num_1 == packed(q, (4 * (p.len() / 4)) as int, (p.len() % 4 + 1) as nat));
                if num_2 == 32 {
                    seed = seed.wrapping_mul(MULTIPLEX) ^ MurmurHash2::mix(num_1);
                    num_1 = 0;
                    num_2 = 0;
                    assert(q.len() / 4 == p.len() / 4 + 1);
                    assert(seed == folded(q, seed0, q.len() / 4));
                }
                proof {
                    p = q;
                }
            }
            i = i + 1;
        }
        proof {
            assert(data@.take(data.len() as int) =~= data@);
        }
        if num_2 > 0 {
            seed = (seed ^ num_1).wrapping_mul(MULTIPLEX);
        }
        let hash: u32 = (seed ^ (seed >> 13)).wrapping_mul(MULTIPLEX);
        hash ^ (hash >> 15)
    }

    /// One full word, scrambled.
    pub fn mix(num_1: u32) -> (r: u32)
        ensures
            r == spec_mix(num_1),
    {
        let num_3: u32 = num_1.wrapping_mul(MULTIPLEX);
        let num_4: u32 = (num_3 ^ (num_3 >> 24)).wrapping_mul(MULTIPLEX);
        num_4
    }

    /// How many bytes of `data` count, as the 32-bit number that seeds the hash.
    pub fn normalise(data: &[u8]) -> (n: u32)
        ensures
            n == normalised(data@).len() % 0x1_0000_0000,
    {
        let mut n_len: usize = 0;
        let mut i: usize = 0;
        proof {
            assert(data@.take(0) =~= Seq::<u8>::empty());
            reveal(Seq::filter);
        }
        while i < data.len()
            invariant
                i <= data.len(),
                n_len <= i,
                n_len == normalised(data@.take(i as int)).len(),
            decreases data.len() - i,
        {
            proof {
                lemma_normalised_step(data@, i as int);
            }
            if !is_whitespace(data[i]) {
                n_len = n_len + 1;
            }
            i = i + 1;
        }
        let wide: u64 = n_len as u64;
        proof {
            assert(data@.take(data.len() as int) =~= data@);
            assert(wide as u32 == wide % 0x1_0000_0000) by (bit_vector);
        }
        #[verifier::truncate]
        (wide as u32)
    }
}

} // verus!
