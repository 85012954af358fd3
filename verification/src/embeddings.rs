//! Text chunking for embedding pipelines, and the embedding generator's
//! configuration. Producing embedding vectors themselves is numeric work
//! done outside this core.

use vstd::prelude::*;
use vstd::string::StrSliceExecFns as _;
use vstd::string::StringExecFns;

use crate::text::split_whitespace_tokens;
use crate::text::split_ws;
use crate::types::push_string;

verus! {

/// Words joined with single spaces: the text of one chunk.
pub open spec fn join_words(ws: Seq<Seq<char>>) -> Seq<char>
    decreases ws.len(),
{
    if ws.len() == 0 {
        Seq::empty()
    } else if ws.len() == 1 {
        ws[0]
    } else {
        join_words(ws.drop_last()) + seq![' '] + ws.last()
    }
}

/// The chunks from word position `i` on: each chunk joins `cs` words (fewer
/// at the end), and successive chunks overlap by `ov` words.
pub open spec fn chunks_from(words: Seq<Seq<char>>, i: int, cs: int, ov: int) -> Seq<Seq<char>>
    decreases words.len() - i,
    via chunks_from_decreases
{
    if i < 0 || i >= words.len() || ov < 0 || cs <= ov {
        Seq::empty()
    } else {
        let end = if i + cs < words.len() {
            i + cs
        } else {
            words.len() as int
        };
        let chunk = join_words(words.subrange(i, end));
        if end >= words.len() {
            seq![chunk]
        } else {
            seq![chunk] + chunks_from(words, i + (cs - ov), cs, ov)
        }
    }
}

#[via_fn]
proof fn chunks_from_decreases(words: Seq<Seq<char>>, i: int, cs: int, ov: int) {
    if !(i < 0 || i >= words.len() || ov < 0 || cs <= ov) {
        if i + cs < words.len() {
            assert(i + (cs - ov) < words.len());
        }
    }
}

/// All chunks of a word list.
pub open spec fn chunks_of(words: Seq<Seq<char>>, cs: int, ov: int) -> Seq<Seq<char>> {
    chunks_from(words, 0, cs, ov)
}

/// Splits `text` into whitespace-separated words and groups them into
/// chunks of `chunk_size` words, each chunk sharing its first `overlap`
/// words with the previous chunk's tail; empty text gives no chunks.
pub fn chunk_text(text: &str, chunk_size: usize, overlap: usize) -> (r: Vec<String>)
    requires
        overlap < chunk_size,
    ensures
        r.deep_view() == chunks_of(split_ws(text@), chunk_size as int, overlap as int),
{
    let words = split_whitespace_tokens(text);
    let ghost wdv = words.deep_view();
    let ghost cs = chunk_size as int;
    let ghost ov = overlap as int;
    let mut chunks: Vec<String> = Vec::new();
    let n = words.len();
    proof {
        assert(chunks.deep_view() =~= Seq::<Seq<char>>::empty());
    }
    let mut i: usize = 0;
    while i < n
        invariant
            overlap < chunk_size,
            cs == chunk_size as int,
            ov == overlap as int,
            n == words@.len(),
            wdv == words.deep_view(),
            i <= n,
            chunks.deep_view() + chunks_from(wdv, i as int, cs, ov) == chunks_of(wdv, cs, ov),
        decreases n - i,
    {
        let end = if chunk_size < n - i {
            i + chunk_size
        } else {
            n
        };
        let mut acc = String::new();
        let mut k = i;
        while k < end
            invariant
                i <= k <= end <= n,
                n == words@.len(),
                wdv == words.deep_view(),
                acc@ == join_words(wdv.subrange(i as int, k as int)),
            decreases end - k,
        {
            if k > i {
                acc.append(" ");
            }
            acc.append(words[k].as_str());
            proof {
                reveal_strlit(" ");
                assert(" "@ =~= seq![' ']);
                let sub = wdv.subrange(i as int, k + 1);
                assert(wdv[k as int] == words@[k as int]@);
                assert(sub.drop_last() =~= wdv.subrange(i as int, k as int));
                assert(sub.last() == wdv[k as int]);
                if k == i {
                    assert(acc@ =~= join_words(sub));
                } else {
                    assert(acc@ =~= join_words(sub.drop_last()) + seq![' '] + sub.last());
                }
            }
            k += 1;
        }
        let ghost before = chunks.deep_view();
        push_string(&mut chunks, acc);
        proof {
            let chunk = join_words(wdv.subrange(i as int, end as int));
            if end >= n {
                assert(chunks_from(wdv, i as int, cs, ov) =~= seq![chunk]);
                assert(before.push(chunk) =~= before + seq![chunk]);
            } else {
                assert(chunks_from(wdv, i as int, cs, ov) =~= seq![chunk] + chunks_from(
                    wdv,
                    i + (cs - ov),
                    cs,
                    ov,
                ));
                assert(before.push(chunk) + chunks_from(wdv, i + (cs - ov), cs, ov) =~= before + (
                seq![chunk] + chunks_from(wdv, i + (cs - ov), cs, ov)));
            }
        }
        if end >= n {
            i = n;
        } else {
            i = i + (chunk_size - overlap);
        }
    }
    proof {
        assert(chunks.deep_view() + Seq::<Seq<char>>::empty() =~= chunks.deep_view());
    }
    chunks
}

/// Configuration of the sentence-embedding backend; the numeric embedding
/// work itself runs outside this core.
#[derive(Debug)]
pub struct EmbeddingGenerator {
    pub model_name: String,
}

impl EmbeddingGenerator {
    /// A generator configured with the given model name.
    pub fn new(model_name: &str) -> (g: Self)
        ensures
            g.model_name@ == model_name@,
    {
        EmbeddingGenerator { model_name: model_name.to_owned() }
    }
}

impl Default for EmbeddingGenerator {
    fn default() -> (g: Self)
        ensures
            g.model_name@ == "sentence-transformers/all-MiniLM-L6-v2"@,
    {
        EmbeddingGenerator::new("sentence-transformers/all-MiniLM-L6-v2")
    }
}

} // verus!
