//! The character partitioner: it turns the token size of a chunk into a
//! character-count target, using the token/character ratio of the whole
//! serialized prompt, and cuts the prompt text into consecutive
//! whole-character slices of exactly that many characters (the last slice may
//! be shorter).

use vstd::arithmetic::div_mod::{
    lemma_basic_div, lemma_div_is_ordered, lemma_div_multiples_vanish_fancy, lemma_div_non_zero,
    lemma_fundamental_div_mod, lemma_mod_bound,
};
use vstd::prelude::*;
use vstd::string::StrSliceExecFns;

verus! {

/// The character-count target for one chunk: the chunk's token share of the
/// splittable field, scaled to the serialized prompt's character length and
/// rounded up. This is `ceil((chunk_size_tokens / chunkable_tokens) *
/// total_chars)` computed in exact integer arithmetic, the ratio being taken
/// against the whole serialized prompt's character count on purpose.
pub open spec fn spec_chunk_size_chars(
    chunk_size_tokens: int,
    chunkable_tokens: int,
    total_chars: int,
) -> int {
    (chunk_size_tokens * total_chars + chunkable_tokens - 1) / chunkable_tokens
}

/// The consecutive slices of `s`, each exactly `k` characters long except
/// that the last may be shorter; an empty text has no slices.
pub open spec fn spec_chunks(s: Seq<char>, k: int) -> Seq<Seq<char>>
    decreases s.len(),
    when 1 <= k
{
    if s.len() == 0 {
        Seq::empty()
    } else if s.len() <= k {
        seq![s]
    } else {
        seq![s.take(k)] + spec_chunks(s.skip(k), k)
    }
}

/// The partition has exactly the ceiling of `len / k` slices.
pub proof fn lemma_chunks_len(s: Seq<char>, k: int)
    requires
        1 <= k,
    ensures
        spec_chunks(s, k).len() == (s.len() + k - 1) / k,
    decreases s.len(),
{
    if s.len() == 0 {
        lemma_basic_div(k - 1, k);
    } else if s.len() <= k {
        let x = s.len() + k - 1;
        lemma_fundamental_div_mod(x, k);
        lemma_mod_bound(x, k);
        lemma_div_non_zero(x, k);
        let q = x / k;
        assert(q >= 2 ==> k * q >= 2 * k) by (nonlinear_arith)
            requires
                1 <= k,
        ;
        assert(q == 1);
    } else {
        lemma_chunks_len(s.skip(k), k);
        let x = s.len() - k + k - 1;
        lemma_fundamental_div_mod(x, k);
        lemma_mod_bound(x, k);
        lemma_fundamental_div_mod(x + k, k);
        lemma_mod_bound(x + k, k);
        let q = x / k;
        let r = x % k;
        // x + k == k * (q + 1) + r, so (x + k) / k == q + 1.
        assert(k * (q + 1) == k * q + k) by (nonlinear_arith);
        lemma_div_multiples_vanish_fancy(q + 1, r, k);
        assert((x + k) / k == q + 1);
    }
}

/// Lossless partition: concatenating the slices in order reproduces the
/// original text exactly, character for character.
pub proof fn lemma_chunks_concat(s: Seq<char>, k: int)
    requires
        1 <= k,
    ensures
        spec_chunks(s, k).flatten() == s,
    decreases s.len(),
{
    if s.len() == 0 {
        assert(spec_chunks(s, k).flatten() =~= s);
    } else if s.len() <= k {
        let chunks = spec_chunks(s, k);
        chunks.lemma_flatten_one_element();
        assert(chunks.flatten() == s);
    } else {
        let chunks = spec_chunks(s, k);
        lemma_chunks_concat(s.skip(k), k);
        assert(chunks.first() == s.take(k));
        assert(chunks.drop_first() =~= spec_chunks(s.skip(k), k));
        assert(chunks.flatten() == chunks.first() + chunks.drop_first().flatten());
        assert(chunks.flatten() == s.take(k) + s.skip(k));
        assert(s.take(k) + s.skip(k) =~= s);
    }
}

/// Every slice of the partition starts strictly inside the text: the slice at
/// position `i` begins at character `i * k`.
proof fn lemma_chunk_start_in_range(s: Seq<char>, k: int, i: int)
    requires
        1 <= k,
        0 <= i < spec_chunks(s, k).len(),
    ensures
        i * k < s.len(),
    decreases s.len(),
{
    if s.len() == 0 {
    } else if s.len() <= k {
        assert(i == 0);
    } else if i == 0 {
    } else {
        lemma_chunk_start_in_range(s.skip(k), k, i - 1);
        assert(i * k == (i - 1) * k + k) by (nonlinear_arith);
    }
}

/// Order and content preservation: the slice at position `i` is exactly the
/// characters of `s` from `i * k` up to `(i + 1) * k` (bounded by the text's
/// end), so earlier slices hold strictly earlier characters of `s`.
pub proof fn lemma_chunks_index(s: Seq<char>, k: int, i: int)
    requires
        1 <= k,
        0 <= i < spec_chunks(s, k).len(),
    ensures
        spec_chunks(s, k)[i] == s.subrange(
            i * k,
            if (i + 1) * k <= s.len() { (i + 1) * k } else { s.len() as int },
        ),
    decreases s.len(),
{
    assert((i + 1) * k == i * k + k) by (nonlinear_arith);
    if s.len() == 0 {
    } else if s.len() <= k {
        assert(i == 0);
        assert(spec_chunks(s, k)[0] == s);
        assert(s.subrange(0, s.len() as int) =~= s);
    } else if i == 0 {
        assert(spec_chunks(s, k)[0] == s.take(k));
    } else {
        lemma_chunks_index(s.skip(k), k, i - 1);
        lemma_chunk_start_in_range(s.skip(k), k, i - 1);
        assert(i * k == (i - 1) * k + k) by (nonlinear_arith);
        assert(0 <= (i - 1) * k) by (nonlinear_arith)
            requires
                1 <= i,
                1 <= k,
        ;
        let lo = (i - 1) * k;
        let hi = if i * k <= s.len() - k {
            i * k
        } else {
            s.len() - k
        };
        assert(lo < s.len() - k);
        assert(lo < hi);
        assert(spec_chunks(s, k)[i] == spec_chunks(s.skip(k), k)[i - 1]);
        assert(s.skip(k).subrange(lo, hi) =~= s.subrange(lo + k, hi + k));
        assert(spec_chunks(s, k)[i] == s.subrange(
            i * k,
            if (i + 1) * k <= s.len() { (i + 1) * k } else { s.len() as int },
        ));
    }
}

/// The character-count target never exceeds the prompt's character count, and
/// is positive whenever the prompt has any characters at all.
pub proof fn lemma_chunk_size_chars_bounds(cst: int, ct: int, tc: int)
    requires
        1 <= cst,
        cst <= ct,
        0 <= tc,
    ensures
        spec_chunk_size_chars(cst, ct, tc) <= tc,
        1 <= tc ==> 1 <= spec_chunk_size_chars(cst, ct, tc),
{
    assert(cst * tc <= ct * tc) by (nonlinear_arith)
        requires
            cst <= ct,
            0 <= tc,
    ;
    lemma_div_is_ordered(cst * tc + ct - 1, ct * tc + ct - 1, ct);
    lemma_div_multiples_vanish_fancy(tc, ct - 1, ct);
    assert(ct * tc + ct - 1 == ct * tc + (ct - 1));
    if 1 <= tc {
        assert(1 * 1 <= cst * tc) by (nonlinear_arith)
            requires
                1 <= cst,
                1 <= tc,
        ;
        lemma_div_non_zero(cst * tc + ct - 1, ct);
    }
}

/// Computes the character-count target for one chunk. The target never
/// exceeds the prompt's character count, and is positive whenever the prompt
/// has any characters at all.
pub fn compute_chunk_size_chars(
    chunk_size_tokens: u64,
    chunkable_tokens: u64,
    total_chars: usize,
) -> (r: usize)
    requires
        1 <= chunk_size_tokens,
        chunk_size_tokens <= chunkable_tokens,
    ensures
        r == spec_chunk_size_chars(
            chunk_size_tokens as int,
            chunkable_tokens as int,
            total_chars as int,
        ),
        r <= total_chars,
        1 <= total_chars ==> 1 <= r,
{
    proof {
        assert(chunk_size_tokens * total_chars + chunkable_tokens - 1 < 0x1_0000_0000_0000_0000_0000_0000_0000_0000)
            by (nonlinear_arith)
            requires
                chunk_size_tokens < 0x1_0000_0000_0000_0000,
                total_chars < 0x1_0000_0000_0000_0000,
                chunkable_tokens < 0x1_0000_0000_0000_0000,
        ;
    }
    let numerator: u128 = chunk_size_tokens as u128 * total_chars as u128
        + (chunkable_tokens as u128 - 1);
    let quotient: u128 = numerator / (chunkable_tokens as u128);
    proof {
        lemma_chunk_size_chars_bounds(
            chunk_size_tokens as int,
            chunkable_tokens as int,
            total_chars as int,
        );
    }
    quotient as usize
}

/// Cuts the text into consecutive whole-character slices of exactly
/// `chunk_size` characters each; the final slice holds whatever remains.
pub fn chunk_string(prompt: &str, chunk_size: usize) -> (r: Vec<String>)
    requires
        1 <= chunk_size,
    ensures
        r@.map_values(|c: String| c@) == spec_chunks(prompt@, chunk_size as int),
        r@.len() == (prompt@.len() + chunk_size - 1) / (chunk_size as int),
{
    let ghost k = chunk_size as int;
    let n: usize = prompt.unicode_len();
    let mut out: Vec<String> = Vec::new();
    let mut i: usize = 0;
    proof {
        assert(prompt@.skip(0) =~= prompt@);
        assert(out@.map_values(|c: String| c@) =~= Seq::<Seq<char>>::empty());
        assert(Seq::<Seq<char>>::empty() + spec_chunks(prompt@, k) =~= spec_chunks(prompt@, k));
    }
    while i < n
        invariant
            i <= n,
            n == prompt@.len(),
            1 <= chunk_size,
            k == chunk_size as int,
            out@.map_values(|c: String| c@) + spec_chunks(prompt@.skip(i as int), chunk_size as int)
                == spec_chunks(prompt@, chunk_size as int),
        decreases n - i,
    {
        let end: usize = if n - i < chunk_size {
            n
        } else {
            i + chunk_size
        };
        let piece = prompt.substring_char(i, end);
        let owned: String = piece.to_owned();
        proof {
            let rest = prompt@.skip(i as int);
            assert(rest.len() == n - i);
            if n - i <= chunk_size {
                assert(piece@ =~= rest);
                assert(spec_chunks(rest, k) == seq![rest]);
                assert(prompt@.skip(end as int) =~= Seq::<char>::empty());
                assert(seq![rest] =~= seq![rest] + spec_chunks(prompt@.skip(end as int), k));
            } else {
                assert(piece@ =~= rest.take(k));
                assert(rest.skip(k) =~= prompt@.skip(end as int));
                assert(spec_chunks(rest, k) == seq![rest.take(k)] + spec_chunks(
                    prompt@.skip(end as int),
                    k,
                ));
            }
            assert(out@.push(owned).map_values(|c: String| c@) =~= out@.map_values(
                |c: String| c@,
            ).push(piece@));
            assert(out@.map_values(|c: String| c@).push(piece@) + spec_chunks(
                prompt@.skip(end as int),
                k,
            ) =~= out@.map_values(|c: String| c@) + (seq![piece@] + spec_chunks(
                prompt@.skip(end as int),
                k,
            )));
        }
        out.push(owned);
        i = end;
    }
    proof {
        assert(prompt@.skip(n as int) =~= Seq::<char>::empty());
        assert(out@.map_values(|c: String| c@) + spec_chunks(Seq::<char>::empty(), k) =~= out@
            .map_values(|c: String| c@));
        lemma_chunks_len(prompt@, k);
    }
    out
}

} // verus!
