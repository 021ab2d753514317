//! Sentence featurization for a BERT-style encoder: truncation to the model
//! cap, the leading CLS and trailing SEP ids, token-type ids, the attention
//! mask, and right padding to a common batch length.

use vstd::prelude::*;

verus! {

/// Hard architecture cap on the number of sentence tokens: with the two
/// special tokens this fills the encoder's 512-position window.
pub const ENCODER_TOKEN_LIMIT: usize = 510;

/// Maximum sequence length used when the caller does not pick one.
pub const DEFAULT_MAX_SEQ_LENGTH: usize = 128;

/// The smaller of two integers.
pub open spec fn min2(a: int, b: int) -> int {
    if a < b {
        a
    } else {
        b
    }
}

/// The maximum sequence length that a requested value resolves to: the
/// default when none is given, and never more than the architecture cap.
pub open spec fn clamp_max_seq_length(requested: Option<usize>) -> usize {
    let r = match requested {
        Some(v) => v,
        None => DEFAULT_MAX_SEQ_LENGTH,
    };
    if r > ENCODER_TOKEN_LIMIT {
        ENCODER_TOKEN_LIMIT
    } else {
        r
    }
}

/// How many of a sentence's token ids survive truncation, given the padding
/// target of its batch and the configured maximum sequence length.
pub open spec fn kept_count(token_len: int, pad_seq_length: int, max_seq_length: int) -> int {
    min2(token_len, min2(pad_seq_length, max_seq_length))
}

/// A run of zero ids.
pub open spec fn spec_zeros(n: int) -> Seq<i64> {
    Seq::new(n as nat, |t: int| 0i64)
}

/// The padded id row of one sentence: CLS, the kept token ids, SEP, zeros.
pub open spec fn spec_input_ids(
    tokens: Seq<i64>,
    kept: int,
    padded: int,
    cls: i64,
    sep: i64,
) -> Seq<i64> {
    seq![cls] + tokens.take(kept) + seq![sep] + spec_zeros(padded - kept - 2)
}

/// The attention mask of one sentence: ones over the kept ids and the two
/// special tokens, zeros over the padding.
pub open spec fn spec_mask(kept: int, padded: int) -> Seq<i64> {
    Seq::new(padded as nat, |t: int| if t < kept + 2 { 1i64 } else { 0i64 })
}

/// The number of entries equal to one.
pub open spec fn count_ones(s: Seq<i64>) -> int
    decreases s.len(),
{
    if s.len() == 0 {
        0
    } else {
        count_ones(s.drop_last()) + if s.last() == 1i64 {
            1int
        } else {
            0int
        }
    }
}

/// The plain per-sentence state that the featurization logic reads: the
/// clamped maximum sequence length and the ids of the two special tokens
/// (looked up once in the tokenizer's vocabulary).
#[derive(Clone, Copy)]
pub struct Bert {
    max_seq_length: usize,
    cls_token_id: i64,
    sep_token_id: i64,
}

impl Bert {
    pub closed spec fn spec_max_seq_length(&self) -> usize {
        self.max_seq_length
    }

    pub closed spec fn spec_cls_token_id(&self) -> i64 {
        self.cls_token_id
    }

    pub closed spec fn spec_sep_token_id(&self) -> i64 {
        self.sep_token_id
    }

    /// The maximum sequence length never exceeds the architecture cap.
    pub open spec fn wf(&self) -> bool {
        self.spec_max_seq_length() <= ENCODER_TOKEN_LIMIT
    }

    /// Resolves the requested maximum sequence length (default, then clamp to
    /// the architecture cap) and records the special token ids.
    pub fn new(max_seq_length: Option<usize>, cls_token_id: i64, sep_token_id: i64) -> (b: Bert)
        ensures
            b.wf(),
            b.spec_max_seq_length() == clamp_max_seq_length(max_seq_length),
            b.spec_cls_token_id() == cls_token_id,
            b.spec_sep_token_id() == sep_token_id,
    {
        let requested = match max_seq_length {
            Some(v) => v,
            None => DEFAULT_MAX_SEQ_LENGTH,
        };
        let clamped = if requested > ENCODER_TOKEN_LIMIT {
            ENCODER_TOKEN_LIMIT
        } else {
            requested
        };
        Bert { max_seq_length: clamped, cls_token_id, sep_token_id }
    }

    pub fn max_seq_length(&self) -> (m: usize)
        ensures
            m == self.spec_max_seq_length(),
    {
        self.max_seq_length
    }

    pub fn cls_token_id(&self) -> (id: i64)
        ensures
            id == self.spec_cls_token_id(),
    {
        self.cls_token_id
    }

    pub fn sep_token_id(&self) -> (id: i64)
        ensures
            id == self.spec_sep_token_id(),
    {
        self.sep_token_id
    }

    /// Builds the three parallel arrays of one sentence — input ids, token
    /// type ids, attention mask — padded to `min(pad_seq_length,
    /// max_seq_length) + 2` positions, together with the count of positions
    /// that carry real content.
    #[verifier::loop_isolation(false)]
    pub fn get_sentence_features(&self, tokens: &Vec<i64>, pad_seq_length: usize) -> (r: (
        Vec<i64>,
        Vec<i64>,
        Vec<i64>,
        Vec<i64>,
    ))
        requires
            self.wf(),
        ensures
            ({
                let kept = kept_count(
                    tokens@.len() as int,
                    pad_seq_length as int,
                    self.spec_max_seq_length() as int,
                );
                let padded = min2(pad_seq_length as int, self.spec_max_seq_length() as int) + 2;
                &&& r.0@ == spec_input_ids(
                    tokens@,
                    kept,
                    padded,
                    self.spec_cls_token_id(),
                    self.spec_sep_token_id(),
                )
                &&& r.1@ == spec_zeros(padded)
                &&& r.2@ == spec_mask(kept, padded)
                &&& r.3@ == seq![(kept + 2) as i64]
            }),
    {
        let eff = if pad_seq_length < self.max_seq_length {
            pad_seq_length
        } else {
            self.max_seq_length
        };
        let kept = if tokens.len() < eff {
            tokens.len()
        } else {
            eff
        };
        let padded = eff + 2;

        let ghost kept_i = kept as int;
        let ghost padded_i = padded as int;

        let mut input_ids: Vec<i64> = Vec::new();
        input_ids.push(self.cls_token_id);
        let mut t: usize = 0;
        while t < kept
            invariant
                t <= kept,
                kept <= tokens@.len(),
                input_ids@ == seq![self.spec_cls_token_id()] + tokens@.take(t as int),
            decreases kept - t,
        {
            input_ids.push(tokens[t]);
            proof {
                assert(input_ids@ =~= seq![self.spec_cls_token_id()] + tokens@.take(
                    t as int + 1,
                ));
            }
            t += 1;
        }
        input_ids.push(self.sep_token_id);
        let sentence_length = input_ids.len();
        assert(sentence_length == kept + 2);
        while input_ids.len() < padded
            invariant
                kept + 2 <= input_ids@.len() <= padded,
                input_ids@ == seq![self.spec_cls_token_id()] + tokens@.take(kept_i) + seq![
                    self.spec_sep_token_id(),
                ] + spec_zeros(input_ids@.len() - kept_i - 2),
            decreases padded - input_ids@.len(),
        {
            input_ids.push(0);
            proof {
                assert(input_ids@ =~= seq![self.spec_cls_token_id()] + tokens@.take(kept_i)
                    + seq![self.spec_sep_token_id()] + spec_zeros(
                    input_ids@.len() - kept_i - 2,
                ));
            }
        }

        let mut token_type_ids: Vec<i64> = Vec::new();
        let mut u: usize = 0;
        while u < padded
            invariant
                u <= padded,
                token_type_ids@ == spec_zeros(u as int),
            decreases padded - u,
        {
            token_type_ids.push(0);
            proof {
                assert(token_type_ids@ =~= spec_zeros(u as int + 1));
            }
            u += 1;
        }

        let mut input_mask: Vec<i64> = Vec::new();
        let mut w: usize = 0;
        while w < padded
            invariant
                w <= padded,
                sentence_length == kept_i + 2,
                input_mask@ == spec_mask(kept_i, padded_i).take(w as int),
            decreases padded - w,
        {
            if w < sentence_length {
                input_mask.push(1);
            } else {
                input_mask.push(0);
            }
            proof {
                assert(input_mask@ =~= spec_mask(kept_i, padded_i).take(w as int + 1));
            }
            w += 1;
        }
        proof {
            assert(input_mask@ =~= spec_mask(kept_i, padded_i));
        }

        let sentence_lengths = vec![sentence_length as i64];
        (input_ids, token_type_ids, input_mask, sentence_lengths)
    }
}

/// Counting ones in an attention mask: the mask of `kept` ids padded to
/// `padded` positions holds exactly `kept + 2` ones.
proof fn lemma_count_mask(kept: int, padded: int)
    requires
        0 <= kept,
        kept + 2 <= padded,
    ensures
        count_ones(spec_mask(kept, padded)) == kept + 2,
    decreases padded,
{
    let m = spec_mask(kept, padded);
    if padded > kept + 2 {
        assert(m.last() == 0i64);
        assert(m.drop_last() =~= spec_mask(kept, padded - 1));
        lemma_count_mask(kept, padded - 1);
    } else if kept > 0 {
        assert(m.last() == 1i64);
        assert(m.drop_last() =~= spec_mask(kept - 1, padded - 1));
        lemma_count_mask(kept - 1, padded - 1);
    } else {
        assert(m.last() == 1i64);
        let m1 = m.drop_last();
        assert(m1.len() == 1 && m1.last() == 1i64);
        let m0 = m1.drop_last();
        assert(m0.len() == 0);
        assert(count_ones(m0) == 0);
        assert(count_ones(m1) == 1);
        assert(count_ones(m) == 2);
    }
}

/// Mask correctness: whenever the padding target covers the sentence (the
/// batch builder always pads to at least the longest sentence of the batch),
/// the attention mask holds exactly `min(token_count, max_seq_length) + 2`
/// ones — one per kept token plus the CLS and SEP positions.
pub proof fn lemma_mask_ones(token_len: int, pad_seq_length: int, max_seq_length: int)
    requires
        0 <= token_len <= pad_seq_length,
        0 <= max_seq_length,
    ensures
        ({
            let kept = kept_count(token_len, pad_seq_length, max_seq_length);
            let padded = min2(pad_seq_length, max_seq_length) + 2;
            count_ones(spec_mask(kept, padded)) == min2(token_len, max_seq_length) + 2
        }),
{
    let kept = kept_count(token_len, pad_seq_length, max_seq_length);
    let padded = min2(pad_seq_length, max_seq_length) + 2;
    lemma_count_mask(kept, padded);
}

/// Truncation boundary: a sentence with exactly `max_seq_length` tokens keeps
/// them all; one with a single token more keeps exactly `max_seq_length` of
/// them.
pub proof fn lemma_truncation_boundary(token_len: int, pad_seq_length: int, max_seq_length: int)
    requires
        0 <= token_len <= pad_seq_length,
        0 <= max_seq_length,
    ensures
        token_len <= max_seq_length ==> kept_count(token_len, pad_seq_length, max_seq_length)
            == token_len,
        token_len == max_seq_length + 1 ==> kept_count(token_len, pad_seq_length, max_seq_length)
            == max_seq_length,
{
}

} // verus!
