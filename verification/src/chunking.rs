//! File splitting and reassembly.
//!
//! A file is cut into fixed-size chunks; every chunk but the last has
//! exactly the requested size, and concatenating the chunks in order gives
//! back the original bytes.

use vstd::prelude::*;
use vstd::arithmetic::div_mod::{lemma_basic_div, lemma_div_plus_one, lemma_fundamental_div_mod};

verus! {

/// The chunks that splitting `data` at size `c` yields, in order.
pub open spec fn split_spec(data: Seq<u8>, c: nat) -> Seq<Seq<u8>>
    decreases data.len(),
    when c > 0
{
    if data.len() == 0 {
        Seq::empty()
    } else if data.len() <= c {
        seq![data]
    } else {
        seq![data.take(c as int)] + split_spec(data.skip(c as int), c)
    }
}

/// `ceil(s / c)`: the number of chunks a file of `s` bytes yields at chunk size `c`.
pub open spec fn ceil_div(s: nat, c: nat) -> int
    recommends
        c > 0,
{
    (s + c - 1) / (c as int)
}

/// Splitting a file of size `s` with chunk size `c` yields `ceil(s / c)` chunks.
pub proof fn lemma_split_count(data: Seq<u8>, c: nat)
    requires
        c > 0,
    ensures
        split_spec(data, c).len() == ceil_div(data.len(), c),
    decreases data.len(),
{
    let s = data.len() as int;
    let ci = c as int;
    if s == 0 {
        lemma_basic_div(ci - 1, ci);
    } else if s <= ci {
        lemma_div_plus_one(s - 1, ci);
        lemma_basic_div(s - 1, ci);
    } else {
        lemma_split_count(data.skip(ci), c);
        lemma_div_plus_one(s - 1, ci);
    }
}

/// All chunks but the last have length `c`; the last holds the remaining
/// `s - (n - 1) * c` bytes.
pub proof fn lemma_split_sizes(data: Seq<u8>, c: nat)
    requires
        c > 0,
    ensures
        forall|i: int|
            0 <= i < split_spec(data, c).len() - 1 ==> #[trigger] split_spec(data, c)[i].len()
                == c,
        split_spec(data, c).len() > 0 ==> split_spec(data, c).last().len() == data.len() - (
        split_spec(data, c).len() - 1) * c,
    decreases data.len(),
{
    let s = data.len() as int;
    let ci = c as int;
    let parts = split_spec(data, c);
    if s == 0 {
    } else if s <= ci {
        assert(parts.len() == 1);
        assert(parts.last().len() == s);
        assert(s - (parts.len() - 1) * ci == s) by (nonlinear_arith)
            requires
                parts.len() == 1,
        ;
    } else {
        let rest = split_spec(data.skip(ci), c);
        lemma_split_sizes(data.skip(ci), c);
        assert(data.skip(ci).len() > 0);
        assert(rest.len() > 0);
        assert forall|i: int| 0 <= i < parts.len() - 1 implies #[trigger] parts[i].len() == c by {
            if i > 0 {
                assert(parts[i] == rest[i - 1]);
            }
        }
        assert(parts.last() == rest.last());
        assert(parts.last().len() == s - (parts.len() - 1) * ci) by {
            assert(rest.last().len() == (s - ci) - (rest.len() - 1) * ci);
            assert((s - ci) - (rest.len() - 1) * ci == s - (parts.len() - 1) * ci)
                by (nonlinear_arith)
                requires
                    rest.len() == parts.len() - 1,
            ;
        }
    }
}

/// The last chunk's length, phrased with `%`: `s % c` bytes, or `c` when the
/// file size is an exact multiple of the chunk size.
pub proof fn lemma_split_last_mod(data: Seq<u8>, c: nat)
    requires
        c > 0,
        data.len() > 0,
    ensures
        split_spec(data, c).last().len() == if data.len() % c == 0 {
            c as int
        } else {
            (data.len() % c) as int
        },
{
    let s = data.len() as int;
    let ci = c as int;
    lemma_split_count(data, c);
    lemma_split_sizes(data, c);
    let n = split_spec(data, c).len() as int;
    lemma_fundamental_div_mod(s + ci - 1, ci);
    lemma_fundamental_div_mod(s, ci);
    assert(s - (n - 1) * ci == if s % ci == 0 {
        ci
    } else {
        s % ci
    }) by (nonlinear_arith)
        requires
            ci > 0,
            s > 0,
            n == (s + ci - 1) / ci,
            (s + ci - 1) == ci * ((s + ci - 1) / ci) + (s + ci - 1) % ci,
            0 <= (s + ci - 1) % ci < ci,
            s == ci * (s / ci) + s % ci,
            0 <= s % ci < ci,
    ;
}

/// Concatenating the chunks that splitting produced, in order, gives back
/// exactly the original bytes.
pub proof fn lemma_split_flatten(data: Seq<u8>, c: nat)
    requires
        c > 0,
    ensures
        split_spec(data, c).flatten() == data,
    decreases data.len(),
{
    let s = data.len() as int;
    let ci = c as int;
    if s == 0 {
        assert(split_spec(data, c).flatten() =~= data);
    } else if s <= ci {
        assert(seq![data].flatten() =~= data) by {
            seq![data].lemma_flatten_one_element();
        }
    } else {
        let head = seq![data.take(ci)];
        let rest = split_spec(data.skip(ci), c);
        lemma_split_flatten(data.skip(ci), c);
        assert((head + rest).drop_first() =~= rest);
        assert((head + rest).flatten() == data.take(ci) + rest.flatten());
        assert(data.take(ci) + data.skip(ci) =~= data);
    }
}

/// Copies `data[from..to]` into a fresh buffer.
fn copy_range(data: &Vec<u8>, from: usize, to: usize) -> (out: Vec<u8>)
    requires
        from <= to <= data@.len(),
    ensures
        out@ == data@.subrange(from as int, to as int),
{
    let mut out: Vec<u8> = Vec::new();
    let mut j: usize = from;
    while j < to
        invariant
            from <= j <= to <= data@.len(),
            out@ == data@.subrange(from as int, j as int),
        decreases to - j,
    {
        out.push(data[j]);
        assert(out@ =~= data@.subrange(from as int, j + 1 as int));
        j = j + 1;
    }
    out
}

/// Splits `data` into chunks of `chunk_size` bytes; the last chunk holds
/// whatever remains. An empty input yields no chunks.
pub fn split_bytes(data: &Vec<u8>, chunk_size: usize) -> (chunks: Vec<Vec<u8>>)
    requires
        chunk_size > 0,
    ensures
        chunks.deep_view() == split_spec(data@, chunk_size as nat),
{
    let ghost c = chunk_size as nat;
    let n = data.len();
    let mut chunks: Vec<Vec<u8>> = Vec::new();
    let mut offset: usize = 0;
    proof {
        assert(data@.skip(0) =~= data@);
        assert(chunks.deep_view() =~= Seq::<Seq<u8>>::empty());
        assert(chunks.deep_view() + split_spec(data@.skip(0), c) =~= split_spec(data@, c));
    }
    while offset < n
        invariant
            chunk_size > 0,
            c == chunk_size as nat,
            offset <= n,
            n == data@.len(),
            chunks.deep_view() + split_spec(data@.skip(offset as int), c) == split_spec(data@, c),
        decreases n - offset,
    {
        let end = if n - offset > chunk_size {
            offset + chunk_size
        } else {
            n
        };
        let chunk = copy_range(data, offset, end);
        let ghost before = chunks.deep_view();
        let ghost suffix = data@.skip(offset as int);
        chunks.push(chunk);
        proof {
            assert(chunks.deep_view() =~~= before.push(chunk@));
            if suffix.len() <= c {
                assert(chunk@ =~= suffix);
                assert(data@.skip(end as int) =~= Seq::<u8>::empty());
                assert(split_spec(data@.skip(end as int), c) =~= Seq::<Seq<u8>>::empty());
                assert(split_spec(suffix, c) =~= seq![suffix]);
                assert(chunks.deep_view() + split_spec(data@.skip(end as int), c) =~~= before
                    + split_spec(suffix, c));
            } else {
                assert(chunk@ =~= suffix.take(c as int));
                assert(suffix.skip(c as int) =~= data@.skip(end as int));
                assert(chunks.deep_view() + split_spec(data@.skip(end as int), c) =~~= before
                    + split_spec(suffix, c));
            }
        }
        offset = end;
    }
    proof {
        assert(data@.skip(offset as int) =~= Seq::<u8>::empty());
        assert(split_spec(data@.skip(offset as int), c) =~= Seq::<Seq<u8>>::empty());
        assert(chunks.deep_view() + split_spec(data@.skip(offset as int), c) =~~= chunks.deep_view());
    }
    chunks
}

/// Appends the chunks in index order into one byte buffer: the reassembly
/// step of chunked retrieval.
pub fn concat_chunks(chunks: &Vec<Vec<u8>>) -> (out: Vec<u8>)
    ensures
        out@ == chunks.deep_view().flatten(),
{
    let mut out: Vec<u8> = Vec::new();
    let mut i: usize = 0;
    while i < chunks.len()
        invariant
            i <= chunks@.len(),
            out@ == chunks.deep_view().take(i as int).flatten(),
        decreases chunks@.len() - i,
    {
        let mut j: usize = 0;
        let chunk = &chunks[i];
        while j < chunk.len()
            invariant
                j <= chunk@.len(),
                chunk == &chunks[i as int],
                i < chunks@.len(),
                out@ == chunks.deep_view().take(i as int).flatten() + chunk@.take(j as int),
            decreases chunk@.len() - j,
        {
            out.push(chunk[j]);
            assert(chunk@.take(j + 1 as int) =~= chunk@.take(j as int).push(chunk@[j as int]));
            j = j + 1;
        }
        proof {
            let dv = chunks.deep_view();
            assert(chunk@.take(chunk@.len() as int) =~= chunk@);
            assert(dv.take(i + 1 as int).drop_last() =~= dv.take(i as int));
            assert(dv.take(i + 1 as int).last() == chunk@);
            dv.take(i + 1 as int).lemma_flatten_and_flatten_alt_are_equivalent();
            dv.take(i as int).lemma_flatten_and_flatten_alt_are_equivalent();
            assert(dv.take(i + 1 as int).flatten_alt() == dv.take(i as int).flatten_alt()
                + chunk@);
        }
        i = i + 1;
    }
    proof {
        assert(chunks.deep_view().take(chunks@.len() as int) =~= chunks.deep_view());
    }
    out
}

} // verus!
