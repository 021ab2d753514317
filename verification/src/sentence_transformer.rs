//! The encode pipeline's decision core: sentences sorted by token length,
//! grouped into batches, featurized with per-batch padding, and the
//! permutation that restores the caller's original order. The encoder itself
//! (a pretrained transformer) consumes the batches that this module builds.

use vstd::prelude::*;

use crate::bert::{
    count_ones, kept_count, lemma_mask_ones, min2, spec_input_ids, spec_mask, spec_zeros, Bert,
};
use crate::permutation::{
    argsort, invert, is_inverse, is_permutation, key_lt, lemma_inverse_unique,
    lemma_sorted_permutation_unique, reorder,
};
use crate::pooling::Pooling;
use vstd::arithmetic::div_mod::{
    lemma_div_pos_is_pos, lemma_fundamental_div_mod, lemma_mod_pos_bound,
};

verus! {

/// The views of a list of token-id rows.
pub open spec fn rows_view(rows: Seq<Vec<i64>>) -> Seq<Seq<i64>> {
    Seq::new(rows.len(), |i: int| rows[i]@)
}

/// Token count of each sentence, in order.
pub open spec fn lengths_of(toks: Seq<Seq<i64>>) -> Seq<usize> {
    Seq::new(toks.len(), |i: int| toks[i].len() as usize)
}

/// Length of the longest row: the padding target of a batch, before the cap.
pub open spec fn rows_max_len(toks: Seq<Seq<i64>>) -> int
    decreases toks.len(),
{
    if toks.len() == 0 {
        0
    } else {
        let rest = rows_max_len(toks.drop_last());
        if toks.last().len() > rest {
            toks.last().len() as int
        } else {
            rest
        }
    }
}

/// No row is longer than the longest row.
pub proof fn lemma_rows_max_len_ge(toks: Seq<Seq<i64>>, r: int)
    requires
        0 <= r < toks.len(),
    ensures
        toks[r].len() <= rows_max_len(toks),
        rows_max_len(toks) >= 0,
    decreases toks.len(),
{
    if r < toks.len() - 1 {
        lemma_rows_max_len_ge(toks.drop_last(), r);
        assert(toks.drop_last()[r] == toks[r]);
    }
}

/// The parallel arrays of one batch, one row per sentence, all rows padded to
/// the same length.
pub struct BatchFeatures {
    pub input_ids: Vec<Vec<i64>>,
    pub token_type_ids: Vec<Vec<i64>>,
    pub input_mask: Vec<Vec<i64>>,
    pub sentence_lengths: Vec<i64>,
}

/// One featurized row: the padded ids, all-zero token type ids, the attention
/// mask, and the count of positions with real content, for a sentence padded
/// to target `pad`.
pub open spec fn row_ok(
    bert: Bert,
    ids: Seq<i64>,
    tt: Seq<i64>,
    mask: Seq<i64>,
    sl: i64,
    tokens: Seq<i64>,
    pad: int,
) -> bool {
    let kept = kept_count(tokens.len() as int, pad, bert.spec_max_seq_length() as int);
    let padded = min2(pad, bert.spec_max_seq_length() as int) + 2;
    &&& ids == spec_input_ids(
        tokens,
        kept,
        padded,
        bert.spec_cls_token_id(),
        bert.spec_sep_token_id(),
    )
    &&& tt == spec_zeros(padded)
    &&& mask == spec_mask(kept, padded)
    &&& sl == (kept + 2) as i64
}

/// A batch is the featurization of its sentences, padded to the length of the
/// batch's longest sentence (capped by the configured maximum).
pub open spec fn batch_matches(bert: Bert, bf: BatchFeatures, toks: Seq<Seq<i64>>) -> bool {
    &&& bf.input_ids@.len() == toks.len()
    &&& bf.token_type_ids@.len() == toks.len()
    &&& bf.input_mask@.len() == toks.len()
    &&& bf.sentence_lengths@.len() == toks.len()
    &&& forall|r: int|
        0 <= r < toks.len() ==> row_ok(
            bert,
            (#[trigger] bf.input_ids@[r])@,
            bf.token_type_ids@[r]@,
            bf.input_mask@[r]@,
            bf.sentence_lengths@[r],
            toks[r],
            rows_max_len(toks),
        )
}

/// Builds one batch's parallel arrays: finds the longest sentence, then pads
/// every row to it (capped by the configured maximum sequence length).
#[verifier::loop_isolation(false)]
pub fn featurize_batch(bert: &Bert, batch_tokens: &Vec<Vec<i64>>) -> (bf: BatchFeatures)
    requires
        bert.wf(),
    ensures
        batch_matches(*bert, bf, rows_view(batch_tokens@)),
{
    let ghost toks = rows_view(batch_tokens@);
    let m = batch_tokens.len();
    let mut longest: usize = 0;
    let mut r: usize = 0;
    while r < m
        invariant
            r <= m,
            longest as int == rows_max_len(toks.take(r as int)),
        decreases m - r,
    {
        let l = batch_tokens[r].len();
        proof {
            assert(toks.take(r as int + 1).drop_last() =~= toks.take(r as int));
            assert(toks.take(r as int + 1).last() == batch_tokens@[r as int]@);
        }
        if l > longest {
            longest = l;
        }
        r += 1;
    }
    proof {
        assert(toks.take(m as int) =~= toks);
    }

    let mut input_ids: Vec<Vec<i64>> = Vec::new();
    let mut token_type_ids: Vec<Vec<i64>> = Vec::new();
    let mut input_mask: Vec<Vec<i64>> = Vec::new();
    let mut sentence_lengths: Vec<i64> = Vec::new();
    let mut r: usize = 0;
    while r < m
        invariant
            r <= m,
            input_ids@.len() == r,
            token_type_ids@.len() == r,
            input_mask@.len() == r,
            sentence_lengths@.len() == r,
            forall|t: int|
                0 <= t < r ==> row_ok(
                    *bert,
                    (#[trigger] input_ids@[t])@,
                    token_type_ids@[t]@,
                    input_mask@[t]@,
                    sentence_lengths@[t],
                    toks[t],
                    longest as int,
                ),
        decreases m - r,
    {
        let (ids, tt, mask, sl) = bert.get_sentence_features(&batch_tokens[r], longest);
        let sl0 = sl[0];
        input_ids.push(ids);
        token_type_ids.push(tt);
        input_mask.push(mask);
        sentence_lengths.push(sl0);
        r += 1;
    }
    BatchFeatures { input_ids, token_type_ids, input_mask, sentence_lengths }
}

/// How many batches a list of `n` sentences fills at a given batch size: full
/// batches, plus one for a shorter remainder.
pub open spec fn num_batches(n: int, batch_size: int) -> int
    decreases n,
{
    if n <= 0 || batch_size <= 0 {
        0
    } else if n <= batch_size {
        1
    } else {
        1 + num_batches(n - batch_size, batch_size)
    }
}

/// The sentences of one batch: the token rows at sorted positions
/// `start .. end`.
pub open spec fn chunk_of(toks: Seq<Seq<i64>>, order: Seq<usize>, start: int, end: int) -> Seq<
    Seq<i64>,
> {
    Seq::new((end - start) as nat, |k: int| toks[order[start + k] as int])
}

/// Everything `encode` decides before the encoder runs: the length-sorted
/// order, its inverse (which restores the caller's order), and the featurized
/// batches, in the order they are handed to the encoder.
pub struct EncodePlan {
    pub length_sorted_idx: Vec<usize>,
    pub reverting_order: Vec<usize>,
    pub batches: Vec<BatchFeatures>,
}

/// A valid plan for `toks` at `batch_size`: the sort order is the stable
/// ascending length sort, the reverting order is its inverse, and batch `b`
/// is the featurization of the sorted sentences `b * batch_size` up to the
/// next boundary.
pub open spec fn plan_ok(
    bert: Bert,
    toks: Seq<Seq<i64>>,
    batch_size: int,
    plan: EncodePlan,
) -> bool {
    let n = toks.len() as int;
    let p = plan.length_sorted_idx@;
    &&& p.len() == n
    &&& is_permutation(p)
    &&& forall|a: int, b: int| 0 <= a < b < n ==> key_lt(lengths_of(toks), p[a], p[b])
    &&& is_permutation(plan.reverting_order@)
    &&& is_inverse(p, plan.reverting_order@)
    &&& plan.batches@.len() == num_batches(n, batch_size)
    &&& forall|b: int|
        0 <= b < plan.batches@.len() ==> batch_matches(
            bert,
            #[trigger] plan.batches@[b],
            chunk_of(toks, p, b * batch_size, min2((b + 1) * batch_size, n)),
        )
}

/// Copies one sentence's token ids.
fn clone_row(row: &Vec<i64>) -> (r: Vec<i64>)
    ensures
        r@ == row@,
{
    let mut r: Vec<i64> = Vec::new();
    let mut t: usize = 0;
    while t < row.len()
        invariant
            t <= row@.len(),
            r@ == row@.take(t as int),
        decreases row@.len() - t,
    {
        r.push(row[t]);
        proof {
            assert(r@ =~= row@.take(t as int + 1));
        }
        t += 1;
    }
    proof {
        assert(r@ =~= row@);
    }
    r
}

/// The model handle that `encode` works from: the featurization state and the
/// resolved pooling strategy. The encoder's weights live with the caller that
/// runs the batches.
pub struct SentenceTransformer {
    pub bert: Bert,
    pub pooling: Pooling,
}

impl SentenceTransformer {
    pub fn new(bert: Bert, pooling: Pooling) -> (s: SentenceTransformer)
        ensures
            s.bert == bert,
            s.pooling == pooling,
    {
        SentenceTransformer { bert, pooling }
    }

    /// Plans one `encode` call: sorts the sentences ascending by token count
    /// (stable, so the order and its inverse are deterministic), groups the
    /// sorted sentences into `batch_size` chunks, and featurizes each chunk
    /// padded to its own longest sentence. An empty sentence list yields a
    /// plan with no batches, so the encoder is never invoked for it.
    #[verifier::loop_isolation(false)]
    pub fn prepare_batches(&self, token_lists: &Vec<Vec<i64>>, batch_size: usize) -> (plan:
        EncodePlan)
        requires
            self.bert.wf(),
            batch_size >= 1,
        ensures
            plan_ok(self.bert, rows_view(token_lists@), batch_size as int, plan),
            token_lists@.len() == 0 ==> plan.batches@.len() == 0,
    {
        let ghost toks = rows_view(token_lists@);
        let n = token_lists.len();
        let mut lengths: Vec<usize> = Vec::new();
        let mut i: usize = 0;
        while i < n
            invariant
                i <= n,
                lengths@.len() == i,
                forall|j: int| 0 <= j < i ==> (#[trigger] lengths@[j]) == token_lists@[j]@.len(),
            decreases n - i,
        {
            lengths.push(token_lists[i].len());
            i += 1;
        }
        proof {
            assert(lengths@ =~= lengths_of(toks));
        }
        let length_sorted_idx = argsort(&lengths);
        let reverting_order = invert(&length_sorted_idx);
        let ghost p = length_sorted_idx@;

        let mut batches: Vec<BatchFeatures> = Vec::new();
        let mut start: usize = 0;
        proof {
            assert(0int * (batch_size as int) == 0) by (nonlinear_arith);
        }
        while start < n
            invariant
                start <= n,
                start as int == min2(batches@.len() * (batch_size as int), n as int),
                batches@.len() + num_batches(n as int - start as int, batch_size as int)
                    == num_batches(n as int, batch_size as int),
                forall|b: int|
                    0 <= b < batches@.len() ==> batch_matches(
                        self.bert,
                        #[trigger] batches@[b],
                        chunk_of(toks, p, b * (batch_size as int), min2(
                            (b + 1) * (batch_size as int),
                            n as int,
                        )),
                    ),
            decreases n - start,
        {
            let ghost b = batches@.len() as int;
            let ghost bs = batch_size as int;
            let end = if n - start > batch_size {
                start + batch_size
            } else {
                n
            };
            proof {
                assert(b * bs < n as int);
                assert((b + 1) * bs == b * bs + bs) by (nonlinear_arith);
                assert(end as int == min2((b + 1) * bs, n as int));
            }
            let mut batch_tokens: Vec<Vec<i64>> = Vec::new();
            let mut k = start;
            while k < end
                invariant
                    start <= k <= end,
                    batch_tokens@.len() == k - start,
                    forall|t: int|
                        0 <= t < k - start ==> (#[trigger] batch_tokens@[t])@ == toks[p[start
                            + t] as int],
                decreases end - k,
            {
                let s_idx = length_sorted_idx[k];
                batch_tokens.push(clone_row(&token_lists[s_idx]));
                k += 1;
            }
            let bf = featurize_batch(&self.bert, &batch_tokens);
            proof {
                assert(rows_view(batch_tokens@) =~= chunk_of(
                    toks,
                    p,
                    start as int,
                    end as int,
                ));
            }
            batches.push(bf);
            start = end;
        }
        proof {
            assert(num_batches(n as int - start as int, batch_size as int) == 0);
        }
        EncodePlan { length_sorted_idx, reverting_order, batches }
    }
}

/// Order preservation: results gathered in a plan's sorted batch order and
/// then read in the plan's reverting order come out in the caller's original
/// sentence order, whatever the batch size was. This holds for any
/// per-sentence results, in particular for the embeddings the encoder
/// produces.
pub proof fn lemma_plan_restores_order<A>(
    bert: Bert,
    toks: Seq<Seq<i64>>,
    batch_size: int,
    plan: EncodePlan,
    results: Seq<A>,
)
    requires
        plan_ok(bert, toks, batch_size, plan),
        results.len() == toks.len(),
    ensures
        reorder(reorder(results, plan.length_sorted_idx@), plan.reverting_order@) == results,
{
    crate::permutation::lemma_sort_then_restore_identity(
        results,
        plan.length_sorted_idx@,
        plan.reverting_order@,
    );
}

/// The batch that sorted position `k` falls in.
pub open spec fn batch_of_position(k: int, batch_size: int) -> int {
    k / batch_size
}

/// The row within its batch that sorted position `k` fills.
pub open spec fn row_of_position(k: int, batch_size: int) -> int {
    k % batch_size
}

/// `num_batches` covers every sentence and wastes no batch: the batches hold
/// at least `n` slots, and all but the last boundary lie below `n`.
proof fn lemma_num_batches_bounds(n: int, batch_size: int)
    requires
        n >= 0,
        batch_size >= 1,
    ensures
        num_batches(n, batch_size) >= 0,
        num_batches(n, batch_size) * batch_size >= n,
        n > 0 ==> (num_batches(n, batch_size) - 1) * batch_size < n,
    decreases n,
{
    if n <= 0 {
    } else if n <= batch_size {
        assert(1 * batch_size == batch_size) by (nonlinear_arith);
        assert(0 * batch_size == 0) by (nonlinear_arith);
    } else {
        lemma_num_batches_bounds(n - batch_size, batch_size);
        let nb1 = num_batches(n - batch_size, batch_size);
        assert((nb1 + 1) * batch_size == nb1 * batch_size + batch_size) by (nonlinear_arith);
        assert(nb1 * batch_size == (nb1 - 1) * batch_size + batch_size) by (nonlinear_arith);
    }
}

/// Where sentence `i` sits in a plan and what its row holds: the mask has
/// exactly `min(token_count, max_seq_length) + 2` ones, and the unpadded
/// front of the id row is CLS, the kept tokens, SEP. None of this depends on
/// the batch size; only the trailing padding does.
pub proof fn lemma_plan_sentence_content(
    bert: Bert,
    toks: Seq<Seq<i64>>,
    batch_size: int,
    plan: EncodePlan,
    i: int,
)
    requires
        plan_ok(bert, toks, batch_size, plan),
        batch_size >= 1,
        0 <= i < toks.len(),
    ensures
        ({
            let k = plan.reverting_order@[i] as int;
            let b = batch_of_position(k, batch_size);
            let r = row_of_position(k, batch_size);
            let kept = min2(toks[i].len() as int, bert.spec_max_seq_length() as int);
            &&& 0 <= b < plan.batches@.len()
            &&& 0 <= r < plan.batches@[b].input_ids@.len()
            &&& plan.batches@[b].input_mask@.len() == plan.batches@[b].input_ids@.len()
            &&& count_ones(plan.batches@[b].input_mask@[r]@) == kept + 2
            &&& plan.batches@[b].input_ids@[r]@.take(kept + 2) == seq![
                bert.spec_cls_token_id(),
            ] + toks[i].take(kept) + seq![bert.spec_sep_token_id()]
            &&& plan.batches@[b].sentence_lengths@[r] == (kept + 2) as i64
        }),
{
    let n = toks.len() as int;
    let p = plan.length_sorted_idx@;
    let q = plan.reverting_order@;
    let k = q[i] as int;
    assert(p[k] as int == i);
    let bs = batch_size;
    let b = k / bs;
    let r = k % bs;
    lemma_fundamental_div_mod(k, bs);
    lemma_mod_pos_bound(k, bs);
    lemma_div_pos_is_pos(k, bs);
    let nb = num_batches(n, bs);
    lemma_num_batches_bounds(n, bs);
    assert(b < nb) by (nonlinear_arith)
        requires
            k == bs * b + r,
            0 <= r < bs,
            k < n,
            nb * bs >= n,
            bs >= 1,
            b >= 0,
    ;
    let start = b * bs;
    let end = min2((b + 1) * bs, n);
    assert((b + 1) * bs == b * bs + bs) by (nonlinear_arith);
    assert(start <= k < end);
    let chunk = chunk_of(toks, p, start, end);
    let rr = k - start;
    assert(rr == r);
    assert(chunk[rr] == toks[p[k] as int]);
    lemma_rows_max_len_ge(chunk, rr);
    let ll = rows_max_len(chunk);
    let maxlen = bert.spec_max_seq_length() as int;
    let kept = kept_count(toks[i].len() as int, ll, maxlen);
    let padded = min2(ll, maxlen) + 2;
    assert(kept == min2(toks[i].len() as int, maxlen));
    lemma_mask_ones(toks[i].len() as int, ll, maxlen);
    assert(plan.batches@[b].input_ids@[rr]@.take(kept + 2) =~= seq![bert.spec_cls_token_id()]
        + toks[i].take(kept) + seq![bert.spec_sep_token_id()]);
}

/// Batch-size invariance of the planned content: two valid plans for the same
/// sentences, at any two batch sizes, place sentence `i` behind the same
/// restored position and give its row the same unpadded ids and the same
/// number of mask ones. Batching changes only the trailing padding, which the
/// masked pooling reductions ignore.
pub proof fn lemma_batch_size_invariance(
    bert: Bert,
    toks: Seq<Seq<i64>>,
    bs1: int,
    bs2: int,
    plan1: EncodePlan,
    plan2: EncodePlan,
    i: int,
)
    requires
        bs1 >= 1,
        bs2 >= 1,
        plan_ok(bert, toks, bs1, plan1),
        plan_ok(bert, toks, bs2, plan2),
        0 <= i < toks.len(),
    ensures
        ({
            let k1 = plan1.reverting_order@[i] as int;
            let b1 = batch_of_position(k1, bs1);
            let r1 = row_of_position(k1, bs1);
            let k2 = plan2.reverting_order@[i] as int;
            let b2 = batch_of_position(k2, bs2);
            let r2 = row_of_position(k2, bs2);
            let kept = min2(toks[i].len() as int, bert.spec_max_seq_length() as int);
            &&& plan1.length_sorted_idx@ == plan2.length_sorted_idx@
            &&& plan1.reverting_order@ == plan2.reverting_order@
            &&& plan1.batches@[b1].input_ids@[r1]@.take(kept + 2) == plan2.batches@[b2].input_ids@[r2]@.take(
                kept + 2,
            )
            &&& count_ones(plan1.batches@[b1].input_mask@[r1]@) == count_ones(
                plan2.batches@[b2].input_mask@[r2]@,
            )
            &&& plan1.batches@[b1].sentence_lengths@[r1] == plan2.batches@[b2].sentence_lengths@[r2]
        }),
{
    lemma_sorted_permutation_unique(
        lengths_of(toks),
        plan1.length_sorted_idx@,
        plan2.length_sorted_idx@,
    );
    lemma_inverse_unique(
        plan1.length_sorted_idx@,
        plan1.reverting_order@,
        plan2.reverting_order@,
    );
    lemma_plan_sentence_content(bert, toks, bs1, plan1, i);
    lemma_plan_sentence_content(bert, toks, bs2, plan2, i);
}

} // verus!
