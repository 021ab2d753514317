use sentence_transformer::bert::Bert;
use sentence_transformer::permutation::{apply_order, argsort, invert};
use sentence_transformer::pooling::{Pooling, PoolingConfig};
use sentence_transformer::sentence_transformer::SentenceTransformer;

fn ids(v: &[i64]) -> Vec<i64> {
    v.to_vec()
}

const CLS: i64 = 101;
const SEP: i64 = 102;

fn bert(max_seq_length: Option<usize>) -> Bert {
    Bert::new(max_seq_length, CLS, SEP)
}

#[test]
fn argsort_sorts_ascending() {
    let v: Vec<usize> = vec![5, 3, 9];
    assert_eq!(argsort(&v), vec![1, 0, 2]);
}

#[test]
fn argsort_breaks_ties_by_index() {
    let v: Vec<usize> = vec![4, 2, 4, 2];
    assert_eq!(argsort(&v), vec![1, 3, 0, 2]);
}

#[test]
fn argsort_empty() {
    let v: Vec<usize> = vec![];
    assert_eq!(argsort(&v), Vec::<usize>::new());
}

#[test]
fn invert_undoes_argsort() {
    let v: Vec<usize> = vec![5, 3, 9];
    let idx = argsort(&v);
    let inv = invert(&idx);
    assert_eq!(inv, vec![1, 0, 2]);
    for i in 0..3 {
        assert_eq!(inv[idx[i]], i);
        assert_eq!(idx[inv[i]], i);
    }
}

#[test]
fn apply_then_apply_inverse_is_identity() {
    let items: Vec<usize> = vec![40, 10, 30, 20];
    let order = argsort(&items);
    let sorted = apply_order(&items, &order);
    assert_eq!(sorted, vec![10, 20, 30, 40]);
    let restored = apply_order(&sorted, &invert(&order));
    assert_eq!(restored, items);
}

#[test]
fn max_seq_length_default_and_cap() {
    assert_eq!(bert(None).max_seq_length(), 128);
    assert_eq!(bert(Some(100)).max_seq_length(), 100);
    assert_eq!(bert(Some(510)).max_seq_length(), 510);
    assert_eq!(bert(Some(600)).max_seq_length(), 510);
}

#[test]
fn sentence_features_pad_and_mask() {
    let b = bert(Some(4));
    let tokens = ids(&[7, 8]);
    let (input_ids, token_type_ids, input_mask, sentence_lengths) =
        b.get_sentence_features(&tokens, 3);
    assert_eq!(input_ids, vec![CLS, 7, 8, SEP, 0]);
    assert_eq!(token_type_ids, vec![0, 0, 0, 0, 0]);
    assert_eq!(input_mask, vec![1, 1, 1, 1, 0]);
    assert_eq!(sentence_lengths, vec![4]);
}

#[test]
fn mask_ones_equal_min_of_count_and_cap_plus_two() {
    let b = bert(Some(2));
    // three tokens against a cap of two: min(3, 2) + 2 = 4 ones
    let (_, _, input_mask, _) = b.get_sentence_features(&ids(&[5, 6, 7]), 3);
    let ones: i64 = input_mask.iter().sum();
    assert_eq!(ones, 4);
    // one token, no truncation: min(1, 2) + 2 = 3 ones
    let (_, _, short_mask, _) = b.get_sentence_features(&ids(&[5]), 3);
    let short_ones: i64 = short_mask.iter().sum();
    assert_eq!(short_ones, 3);
}

#[test]
fn truncation_boundary() {
    let b = bert(Some(3));
    // exactly max_seq_length tokens: kept whole
    let (input_ids, _, _, _) = b.get_sentence_features(&ids(&[5, 6, 7]), 3);
    assert_eq!(input_ids, vec![CLS, 5, 6, 7, SEP]);
    // one token more: truncated to max_seq_length before the special tokens
    let (longer_ids, _, _, _) = b.get_sentence_features(&ids(&[5, 6, 7, 8]), 4);
    assert_eq!(longer_ids, vec![CLS, 5, 6, 7, SEP]);
}

#[test]
fn batch_rows_pad_to_longest_in_batch() {
    let st = SentenceTransformer::new(bert(Some(10)), Pooling::new(&default_config(4)));
    let token_lists = vec![ids(&[9, 9, 9]), ids(&[7]), ids(&[8, 8])];
    let plan = st.prepare_batches(&token_lists, 2);
    assert_eq!(plan.length_sorted_idx, vec![1, 2, 0]);
    assert_eq!(plan.reverting_order, vec![2, 0, 1]);
    assert_eq!(plan.batches.len(), 2);
    // first batch: sentences of one and two tokens, padded to 2 + 2 positions
    assert_eq!(plan.batches[0].input_ids[0], vec![CLS, 7, SEP, 0]);
    assert_eq!(plan.batches[0].input_ids[1], vec![CLS, 8, 8, SEP]);
    assert_eq!(plan.batches[0].input_mask[0], vec![1, 1, 1, 0]);
    assert_eq!(plan.batches[0].token_type_ids[1], vec![0, 0, 0, 0]);
    assert_eq!(plan.batches[0].sentence_lengths, vec![3, 4]);
    // second batch: the three-token sentence alone, padded to 3 + 2
    assert_eq!(plan.batches[1].input_ids[0], vec![CLS, 9, 9, 9, SEP]);
}

#[test]
fn batch_padding_capped_by_max_seq_length() {
    let st = SentenceTransformer::new(bert(Some(2)), Pooling::new(&default_config(4)));
    let token_lists = vec![ids(&[5, 6, 7, 8])];
    let plan = st.prepare_batches(&token_lists, 8);
    assert_eq!(plan.batches[0].input_ids[0], vec![CLS, 5, 6, SEP]);
    assert_eq!(plan.batches[0].input_mask[0], vec![1, 1, 1, 1]);
}

#[test]
fn empty_input_yields_no_batches() {
    let st = SentenceTransformer::new(bert(None), Pooling::new(&default_config(4)));
    let token_lists: Vec<Vec<i64>> = vec![];
    let plan = st.prepare_batches(&token_lists, 8);
    assert!(plan.batches.is_empty());
    assert!(plan.length_sorted_idx.is_empty());
    assert!(plan.reverting_order.is_empty());
}

#[test]
fn batch_count_covers_all_sentences() {
    let st = SentenceTransformer::new(bert(None), Pooling::new(&default_config(4)));
    let token_lists = vec![ids(&[1]), ids(&[2]), ids(&[3]), ids(&[4]), ids(&[5])];
    let plan = st.prepare_batches(&token_lists, 2);
    assert_eq!(plan.batches.len(), 3);
    assert_eq!(plan.batches[0].input_ids.len(), 2);
    assert_eq!(plan.batches[1].input_ids.len(), 2);
    assert_eq!(plan.batches[2].input_ids.len(), 1);
}

/// Reads per-sentence rows back out of a plan in batch order, then restores
/// the original order with the reverting permutation, as `encode` does with
/// the pooled embeddings.
fn restore<T: Clone>(rows_sorted: Vec<T>, reverting_order: &[usize]) -> Vec<T> {
    reverting_order.iter().map(|&k| rows_sorted[k].clone()).collect()
}

#[test]
fn order_restored_for_permuted_inputs() {
    let st = SentenceTransformer::new(bert(Some(10)), Pooling::new(&default_config(4)));
    // distinct first tokens mark each sentence
    let token_lists = vec![ids(&[30, 0, 0]), ids(&[10]), ids(&[20, 0]), ids(&[40, 0, 0, 0])];
    for batch_size in [1, 2, 3, 8] {
        let plan = st.prepare_batches(&token_lists, batch_size);
        let mut flat: Vec<Vec<i64>> = Vec::new();
        for b in &plan.batches {
            flat.extend(b.input_ids.iter().cloned());
        }
        let restored = restore(flat, &plan.reverting_order);
        for (i, row) in restored.iter().enumerate() {
            assert_eq!(row[0], CLS);
            assert_eq!(row[1], token_lists[i][0]);
        }
    }
}

#[test]
fn batch_size_does_not_change_unpadded_content() {
    let st = SentenceTransformer::new(bert(Some(10)), Pooling::new(&default_config(4)));
    let token_lists = vec![ids(&[30, 31]), ids(&[10]), ids(&[20, 21, 22]), ids(&[40])];
    let one = st.prepare_batches(&token_lists, 1);
    let eight = st.prepare_batches(&token_lists, 8);
    for i in 0..token_lists.len() {
        let k1 = one.reverting_order[i];
        let k8 = eight.reverting_order[i];
        let row1 = &one.batches[k1 / 1].input_ids[k1 % 1];
        let row8 = &eight.batches[k8 / 8].input_ids[k8 % 8];
        let content = token_lists[i].len() + 2;
        assert_eq!(row1[..content], row8[..content]);
        let m1: i64 = one.batches[k1 / 1].input_mask[k1 % 1].iter().sum();
        let m8: i64 = eight.batches[k8 / 8].input_mask[k8 % 8].iter().sum();
        assert_eq!(m1, m8);
    }
}

fn default_config(dim: i16) -> PoolingConfig {
    PoolingConfig {
        word_embedding_dimension: dim,
        pooling_mode_cls_token: None,
        pooling_mode_max_tokens: None,
        pooling_mode_mean_tokens: None,
        pooling_mode_mean_sqrt_len_tokens: None,
    }
}

#[test]
fn pooling_defaults_to_mean_only() {
    let p = Pooling::new(&default_config(6));
    assert!(p.mean_tokens());
    assert!(!p.cls_token());
    assert!(!p.max_tokens());
    assert!(!p.mean_sqrt_len_tokens());
    assert_eq!(p.output_dimension(), 6);
}

#[test]
fn pooling_dimension_counts_active_strategies() {
    let config = PoolingConfig {
        word_embedding_dimension: 4,
        pooling_mode_cls_token: Some(true),
        pooling_mode_max_tokens: Some(true),
        pooling_mode_mean_tokens: None,
        pooling_mode_mean_sqrt_len_tokens: Some(false),
    };
    // CLS, max, and the defaulted mean are active: 4 * 3
    assert_eq!(Pooling::new(&config).output_dimension(), 12);
}

#[test]
fn pooling_dimension_zero_when_all_disabled() {
    let config = PoolingConfig {
        word_embedding_dimension: 4,
        pooling_mode_cls_token: Some(false),
        pooling_mode_max_tokens: Some(false),
        pooling_mode_mean_tokens: Some(false),
        pooling_mode_mean_sqrt_len_tokens: Some(false),
    };
    assert_eq!(Pooling::new(&config).output_dimension(), 0);
}
