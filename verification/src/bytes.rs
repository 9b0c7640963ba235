//! Byte sequences: concatenation of chunks.

use vstd::prelude::*;

verus! {

/// The chunks one after another, first chunk first.
pub open spec fn concat_all(chunks: Seq<Seq<u8>>) -> Seq<u8>
    decreases chunks.len(),
{
    if chunks.len() == 0 {
        Seq::<u8>::empty()
    } else {
        concat_all(chunks.drop_last()) + chunks.last()
    }
}

/// The total number of bytes in the chunks.
pub open spec fn total_len(chunks: Seq<Seq<u8>>) -> nat
    decreases chunks.len(),
{
    if chunks.len() == 0 {
        0
    } else {
        total_len(chunks.drop_last()) + chunks.last().len()
    }
}

/// The contents of each chunk of a vector of chunks.
pub open spec fn chunk_views(chunks: Seq<Vec<u8>>) -> Seq<Seq<u8>> {
    Seq::new(chunks.len(), |i: int| chunks[i]@)
}

/// Concatenation has the total length.
pub proof fn lemma_concat_len(chunks: Seq<Seq<u8>>)
    ensures
        concat_all(chunks).len() == total_len(chunks),
    decreases chunks.len(),
{
    if chunks.len() > 0 {
        lemma_concat_len(chunks.drop_last());
    }
}

/// Appending a chunk appends its bytes.
pub proof fn lemma_concat_push(chunks: Seq<Seq<u8>>, chunk: Seq<u8>)
    ensures
        concat_all(chunks.push(chunk)) == concat_all(chunks) + chunk,
        total_len(chunks.push(chunk)) == total_len(chunks) + chunk.len(),
{
    assert(chunks.push(chunk).drop_last() =~= chunks);
}

/// Concatenation distributes over joining two runs of chunks.
pub proof fn lemma_concat_add(a: Seq<Seq<u8>>, b: Seq<Seq<u8>>)
    ensures
        concat_all(a + b) == concat_all(a) + concat_all(b),
        total_len(a + b) == total_len(a) + total_len(b),
    decreases b.len(),
{
    if b.len() == 0 {
        assert(a + b =~= a);
        assert(concat_all(a) + concat_all(b) =~= concat_all(a));
    } else {
        lemma_concat_add(a, b.drop_last());
        assert((a + b).drop_last() =~= a + b.drop_last());
        assert((a + b).last() == b.last());
        assert(concat_all(a + b) =~= concat_all(a) + concat_all(b));
    }
}

/// Appends the bytes of `src` to `dst`.
pub fn append_bytes(dst: &mut Vec<u8>, src: &[u8])
    ensures
        final(dst)@ == old(dst)@ + src@,
{
    let ghost before = dst@;
    dst.extend_from_slice(src);
    assert(dst@ =~= before + src@);
}

/// All chunks joined into one vector.
pub fn concat_chunks(chunks: &Vec<Vec<u8>>) -> (all: Vec<u8>)
    ensures
        all@ == concat_all(chunk_views(chunks@)),
{
    let mut all: Vec<u8> = Vec::new();
    let mut i: usize = 0;
    while i < chunks.len()
        invariant
            i <= chunks.len(),
            all@ == concat_all(chunk_views(chunks@).take(i as int)),
        decreases chunks.len() - i,
    {
        proof {
            let views = chunk_views(chunks@);
            assert(views.take(i + 1) =~= views.take(i as int).push(views[i as int]));
            lemma_concat_push(views.take(i as int), views[i as int]);
        }
        append_bytes(&mut all, chunks[i].as_slice());
        i += 1;
    }
    proof {
        let views = chunk_views(chunks@);
        assert(views.take(i as int) =~= views);
    }
    all
}

/// The total number of bytes in the chunks, where that fits a `usize`.
pub fn total_bytes(chunks: &Vec<Vec<u8>>) -> (n: Option<usize>)
    ensures
        match n {
            Some(n) => n == total_len(chunk_views(chunks@)),
            None => total_len(chunk_views(chunks@)) > usize::MAX,
        },
{
    let mut n: usize = 0;
    let mut i: usize = 0;
    while i < chunks.len()
        invariant
            i <= chunks.len(),
            n == total_len(chunk_views(chunks@).take(i as int)),
        decreases chunks.len() - i,
    {
        proof {
            let views = chunk_views(chunks@);
            assert(views.take(i + 1) =~= views.take(i as int).push(views[i as int]));
            lemma_concat_push(views.take(i as int), views[i as int]);
        }
        match n.checked_add(chunks[i].len()) {
            Some(sum) => {
                n = sum;
            },
            None => {
                proof {
                    let views = chunk_views(chunks@);
                    assert(views =~= views.take(i + 1) + views.skip(i + 1));
                    lemma_concat_add(views.take(i + 1), views.skip(i + 1));
                }
                return None;
            },
        }
        i += 1;
    }
    proof {
        let views = chunk_views(chunks@);
        assert(views.take(i as int) =~= views);
    }
    Some(n)
}

} // verus!
