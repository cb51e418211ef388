//! The payload a run transfers: generated from a seed on the sending side,
//! rebuilt block by block on the receiving side, and compared by its
//! SHA-256 digest.
use vstd::prelude::*;
use vstd::arithmetic::div_mod::{
    lemma_basic_div, lemma_div_by_self, lemma_div_minus_one, lemma_mod_add_multiples_vanish,
    lemma_mod_self_0, lemma_small_mod,
};
use vstd::slice::slice_subrange;
use vstd::string::{StrSliceExecFns, StringExecFns, StringSliceAdditionalSpecFns};

use rand::rngs::StdRng;
use rand::{Rng, SeedableRng};
use sha2::{Digest, Sha256};

use crate::size::Size;

verus! {

/// The SHA-256 digest of a byte sequence.
pub uninterp spec fn sha256(data: Seq<u8>) -> Seq<u8>;

/// Fills `data` with bytes from `rand::rngs::StdRng` seeded with `seed`
/// (`SeedableRng::seed_from_u64`, then `Rng::fill_bytes`).
/// The contract claims only that the length is kept: the crate documents the
/// generator's output as not portable across versions and platforms, so
/// which bytes come out is not stated.
#[verifier::external_body]
fn fill_seeded(seed: u64, data: &mut Vec<u8>)
    ensures
        final(data)@.len() == old(data)@.len(),
{
    StdRng::seed_from_u64(seed).fill_bytes(data);
}

/// Computes `sha2::Sha256::digest(data)`.
/// The contract claims the result is `sha256(data@)`, and that a SHA-256
/// digest is 32 bytes long.
#[verifier::external_body]
fn sha256_digest(data: &[u8]) -> (d: Vec<u8>)
    ensures
        d@ == sha256(data@),
        d@.len() == 32,
{
    Sha256::digest(data).to_vec()
}

/// The lower-case hexadecimal digit for a value below 16.
pub open spec fn hex_digit(n: int) -> char {
    seq!['0', '1', '2', '3', '4', '5', '6', '7', '8', '9', 'a', 'b', 'c', 'd', 'e', 'f'][n]
}

/// Bytes written as lower-case hexadecimal, two digits per byte.
pub open spec fn hex_lower(bytes: Seq<u8>) -> Seq<char>
    decreases bytes.len(),
{
    if bytes.len() == 0 {
        Seq::empty()
    } else {
        hex_lower(bytes.drop_last()) + seq![
            hex_digit((bytes.last() / 16) as int),
            hex_digit((bytes.last() % 16) as int),
        ]
    }
}

/// The text `Payload::hash` gives for these bytes.
pub open spec fn payload_hash(bytes: Seq<u8>) -> Seq<char> {
    hex_lower(sha256(bytes))
}

/// `s` cut into pieces of `k` bytes, the last piece holding what is left.
pub open spec fn chunk_seq(s: Seq<u8>, k: nat) -> Seq<Seq<u8>>
    recommends
        k > 0,
    decreases s.len(),
{
    if s.len() == 0 || k == 0 {
        Seq::empty()
    } else if s.len() <= k {
        seq![s]
    } else {
        seq![s.take(k as int)] + chunk_seq(s.skip(k as int), k)
    }
}

/// The number of pieces of `k` bytes, rounded up, that `p` bytes make (none
/// for pieces of no bytes).
pub open spec fn chunk_count(p: nat, k: nat) -> nat {
    if k == 0 {
        0
    } else if p % k == 0 {
        p / k
    } else {
        p / k + 1
    }
}

/// The length of the last of those pieces.
pub open spec fn last_chunk_len(p: nat, k: nat) -> nat {
    if k == 0 || p % k == 0 {
        k
    } else {
        p % k
    }
}

/// Cutting a payload into blocks and joining the blocks gives the payload back.
pub proof fn lemma_chunks_flatten(s: Seq<u8>, k: nat)
    requires
        k > 0,
    ensures
        chunk_seq(s, k).flatten() == s,
    decreases s.len(),
{
    if s.len() == 0 {
    } else if s.len() <= k {
        assert(chunk_seq(s, k).drop_first() == Seq::<Seq<u8>>::empty());
        assert(Seq::<Seq<u8>>::empty().flatten() == Seq::<u8>::empty());
        assert(chunk_seq(s, k).first() == s);
        assert(s + Seq::<u8>::empty() == s);
    } else {
        lemma_chunks_flatten(s.skip(k as int), k);
        assert(chunk_seq(s, k).drop_first() == chunk_seq(s.skip(k as int), k));
        assert(chunk_seq(s, k).first() == s.take(k as int));
        assert(s.take(k as int) + s.skip(k as int) == s);
    }
}

/// A payload of `p > 0` bytes cut into blocks of `k` gives `chunk_count(p, k)`
/// blocks: all of `k` bytes except the last, which holds
/// `last_chunk_len(p, k)` bytes.
pub proof fn lemma_chunk_lengths(s: Seq<u8>, k: nat)
    requires
        k > 0,
    ensures
        chunk_seq(s, k).len() == chunk_count(s.len(), k),
        s.len() > 0 ==> forall|i: int|
            0 <= i < chunk_seq(s, k).len() ==> #[trigger] chunk_seq(s, k)[i].len() == if i
                < chunk_seq(s, k).len() - 1 {
                k
            } else {
                last_chunk_len(s.len(), k)
            },
    decreases s.len(),
{
    let p = s.len();
    if p == 0 {
        lemma_small_mod(0, k);
        lemma_basic_div(0, k as int);
    } else if p < k {
        lemma_small_mod(p, k);
        lemma_basic_div(p as int, k as int);
    } else if p == k {
        lemma_mod_self_0(k as int);
        lemma_div_by_self(k as int);
    } else {
        let rest = s.skip(k as int);
        lemma_chunk_lengths(rest, k);
        lemma_mod_add_multiples_vanish(p - k, k as int);
        lemma_div_minus_one(p as int, k as int);
        assert(k + (p - k) == p);
        assert(chunk_count(p, k) == chunk_count(rest.len(), k) + 1);
        assert(last_chunk_len(p, k) == last_chunk_len(rest.len(), k));
        let cs = chunk_seq(s, k);
        assert forall|i: int| 0 <= i < cs.len() implies #[trigger] cs[i].len() == if i < cs.len()
            - 1 {
            k
        } else {
            last_chunk_len(p, k)
        } by {
            if i > 0 {
                assert(cs[i] == chunk_seq(rest, k)[i - 1]);
            }
        }
    }
}

/// The bytes held after appending each of `pieces`, in order, to `acc`, as
/// `Payload::extend_from_bytes` appends.
pub open spec fn extend_all(acc: Seq<u8>, pieces: Seq<Seq<u8>>) -> Seq<u8>
    decreases pieces.len(),
{
    if pieces.len() == 0 {
        acc
    } else {
        extend_all(acc + pieces[0], pieces.drop_first())
    }
}

proof fn lemma_extend_all(acc: Seq<u8>, pieces: Seq<Seq<u8>>)
    ensures
        extend_all(acc, pieces) == acc + pieces.flatten(),
    decreases pieces.len(),
{
    if pieces.len() == 0 {
        assert(acc + pieces.flatten() == acc);
    } else {
        lemma_extend_all(acc + pieces[0], pieces.drop_first());
        assert(acc + pieces[0] + pieces.drop_first().flatten() == acc + pieces.flatten());
    }
}

/// Appending the blocks of a payload, in order, to an empty payload rebuilds
/// it, and so gives the same hash, whatever the block size.
pub proof fn lemma_rebuild_from_chunks(s: Seq<u8>, k: nat)
    requires
        k > 0,
    ensures
        extend_all(Seq::empty(), chunk_seq(s, k)) == s,
        payload_hash(extend_all(Seq::empty(), chunk_seq(s, k))) == payload_hash(s),
{
    lemma_extend_all(Seq::empty(), chunk_seq(s, k));
    lemma_chunks_flatten(s, k);
    assert(Seq::<u8>::empty() + s == s);
}

/// A lower-case hexadecimal digit.
pub open spec fn is_lower_hex(c: char) -> bool {
    ('0' <= c && c <= '9') || ('a' <= c && c <= 'f')
}

proof fn lemma_hex_lower_digits(bytes: Seq<u8>)
    ensures
        hex_lower(bytes).len() == 2 * bytes.len(),
        forall|i: int| 0 <= i < hex_lower(bytes).len() ==> is_lower_hex(#[trigger] hex_lower(bytes)[i]),
    decreases bytes.len(),
{
    if bytes.len() > 0 {
        lemma_hex_lower_digits(bytes.drop_last());
        let hi = (bytes.last() / 16) as int;
        let lo = (bytes.last() % 16) as int;
        assert(is_lower_hex(hex_digit(hi)) && is_lower_hex(hex_digit(lo)));
    }
}

/// The generated or received payload.
pub struct Payload {
    pub payload: Vec<u8>,
}

impl Payload {
    /// `size` bytes from the generator seeded with `seed`.
    pub fn new(size: &Size, seed: &u64) -> (r: Self)
        requires
            size.byte_count() <= usize::MAX,
        ensures
            r.payload@.len() == size.byte_count(),
    {
        let size_bytes = size.to_bytes();
        let mut data: Vec<u8> = vec![0u8; size_bytes];
        fill_seeded(*seed, &mut data);
        Self { payload: data }
    }

    /// An empty payload with room for `size` bytes.
    pub fn empty(size: Size) -> (r: Self)
        requires
            size.byte_count() <= usize::MAX,
        ensures
            r.payload@ == Seq::<u8>::empty(),
    {
        Self { payload: Vec::with_capacity(size.to_bytes()) }
    }

    /// Appends received bytes.
    pub fn extend_from_bytes(&mut self, bytes: &[u8])
        ensures
            final(self).payload@ == old(self).payload@ + bytes@,
    {
        let mut i: usize = 0;
        let ghost start = self.payload@;
        while i < bytes.len()
            invariant
                i <= bytes@.len(),
                self.payload@ == start + bytes@.take(i as int),
            decreases bytes@.len() - i,
        {
            self.payload.push(bytes[i]);
            i = i + 1;
            assert(self.payload@ == start + bytes@.take(i as int));
        }
        assert(bytes@.take(i as int) == bytes@);
    }

    /// The SHA-256 digest of the payload, in lower-case hexadecimal.
    pub fn hash(&self) -> (r: String)
        ensures
            r@ == payload_hash(self.payload@),
            r@.len() == 64,
            forall|i: int| 0 <= i < r@.len() ==> is_lower_hex(#[trigger] r@[i]),
    {
        let digest = sha256_digest(self.payload.as_slice());
        let table = "0123456789abcdef";
        proof {
            reveal_strlit("0123456789abcdef");
            assert(table@ =~= seq![
                '0',
                '1',
                '2',
                '3',
                '4',
                '5',
                '6',
                '7',
                '8',
                '9',
                'a',
                'b',
                'c',
                'd',
                'e',
                'f',
            ]);
        }
        let mut out = String::new();
        let mut i: usize = 0;
        while i < digest.len()
            invariant
                i <= digest@.len(),
                digest@.len() == 32,
                forall|n: int| 0 <= n < 16 ==> #[trigger] table@[n] == hex_digit(n),
                table@.len() == 16,
                out@ == hex_lower(digest@.take(i as int)),
                out@.len() == 2 * i,
            decreases digest@.len() - i,
        {
            let b = digest[i];
            let hi = (b / 16) as usize;
            let lo = (b % 16) as usize;
            let hi_digit = table.substring_char(hi, hi + 1);
            let lo_digit = table.substring_char(lo, lo + 1);
            assert(hi_digit@ =~= seq![hex_digit((b / 16) as int)]);
            assert(lo_digit@ =~= seq![hex_digit((b % 16) as int)]);
            out.append(hi_digit);
            out.append(lo_digit);
            assert(digest@.take(i + 1).drop_last() == digest@.take(i as int));
            i = i + 1;
        }
        assert(digest@.take(32) == digest@);
        proof {
            lemma_hex_lower_digits(digest@);
        }
        out
    }

    /// The payload cut into blocks of `chunk_size` bytes, the last block
    /// holding what is left.
    pub fn chunks(&self, chunk_size: usize) -> (r: Vec<&[u8]>)
        requires
            chunk_size > 0,
        ensures
            r@.map_values(|c: &[u8]| c@) == chunk_seq(self.payload@, chunk_size as nat),
    {
        let n = self.payload.len();
        let data = self.payload.as_slice();
        let mut r: Vec<&[u8]> = Vec::new();
        let mut start: usize = 0;
        assert(data@.skip(0) == data@);
        assert(r@.map_values(|c: &[u8]| c@) == Seq::<Seq<u8>>::empty());
        assert(Seq::<Seq<u8>>::empty() + chunk_seq(data@, chunk_size as nat) == chunk_seq(
            data@,
            chunk_size as nat,
        ));
        while start < n
            invariant
                n == data@.len(),
                data@ == self.payload@,
                chunk_size > 0,
                start <= n,
                chunk_seq(data@, chunk_size as nat) == r@.map_values(|c: &[u8]| c@) + chunk_seq(
                    data@.skip(start as int),
                    chunk_size as nat,
                ),
            decreases n - start,
        {
            let end = if n - start > chunk_size {
                start + chunk_size
            } else {
                n
            };
            let piece = slice_subrange(data, start, end);
            let ghost rest = data@.skip(start as int);
            proof {
                if rest.len() > chunk_size {
                    assert(rest.take(chunk_size as int) == piece@);
                    assert(rest.skip(chunk_size as int) == data@.skip(end as int));
                } else {
                    assert(rest == piece@);
                    assert(data@.skip(end as int) == Seq::<u8>::empty());
                }
            }
            let ghost before = r@;
            r.push(piece);
            assert(r@.map_values(|c: &[u8]| c@) == before.map_values(|c: &[u8]| c@) + seq![piece@]);
            start = end;
        }
        assert(data@.skip(n as int) == Seq::<u8>::empty());
        assert(r@.map_values(|c: &[u8]| c@) + Seq::<Seq<u8>>::empty() == r@.map_values(
            |c: &[u8]| c@,
        ));
        r
    }
}

/// The byte the sending side answers the receiver's hash with: 1 when the
/// received bytes are exactly the text of its own hash, 0 otherwise.
pub fn hash_confirmation(received: &[u8], payload_hash: &str) -> (r: u8)
    ensures
        r == (if received@ == payload_hash.spec_bytes() {
            1u8
        } else {
            0u8
        }),
{
    let expected = payload_hash.as_bytes();
    if received.len() != expected.len() {
        return 0;
    }
    let mut i: usize = 0;
    while i < received.len()
        invariant
            received@.len() == expected@.len(),
            expected@ == payload_hash.spec_bytes(),
            i <= received@.len(),
            received@.take(i as int) == expected@.take(i as int),
        decreases received@.len() - i,
    {
        if received[i] != expected[i] {
            assert(received@[i as int] != expected@[i as int]);
            return 0;
        }
        assert(received@.take(i + 1) == received@.take(i as int).push(received@[i as int]));
        assert(expected@.take(i + 1) == expected@.take(i as int).push(expected@[i as int]));
        i = i + 1;
    }
    assert(received@.take(i as int) == received@);
    assert(expected@.take(i as int) == expected@);
    1
}

} // verus!
