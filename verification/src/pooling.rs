//! Pooling configuration: which reductions (CLS token, masked max, mean,
//! mean over the square root of the length) are concatenated, and the
//! resulting output dimension.

use vstd::prelude::*;

verus! {

/// The pooling section of a stored model, as read from its configuration
/// file: the encoder's hidden dimension and four optional strategy flags.
pub struct PoolingConfig {
    pub word_embedding_dimension: i16,
    pub pooling_mode_cls_token: Option<bool>,
    pub pooling_mode_max_tokens: Option<bool>,
    pub pooling_mode_mean_tokens: Option<bool>,
    pub pooling_mode_mean_sqrt_len_tokens: Option<bool>,
}

/// An unset CLS flag defaults to off.
pub open spec fn cls_active(c: PoolingConfig) -> bool {
    match c.pooling_mode_cls_token {
        Some(v) => v,
        None => false,
    }
}

/// An unset max flag defaults to off.
pub open spec fn max_active(c: PoolingConfig) -> bool {
    match c.pooling_mode_max_tokens {
        Some(v) => v,
        None => false,
    }
}

/// An unset mean flag defaults to on: mean pooling is the default strategy.
pub open spec fn mean_active(c: PoolingConfig) -> bool {
    match c.pooling_mode_mean_tokens {
        Some(v) => v,
        None => true,
    }
}

/// An unset mean-sqrt-length flag defaults to off.
pub open spec fn mean_sqrt_active(c: PoolingConfig) -> bool {
    match c.pooling_mode_mean_sqrt_len_tokens {
        Some(v) => v,
        None => false,
    }
}

/// How many pooling strategies contribute to the concatenated output.
pub open spec fn num_active(c: PoolingConfig) -> int {
    (if cls_active(c) {
        1int
    } else {
        0int
    }) + (if max_active(c) {
        1int
    } else {
        0int
    }) + (if mean_active(c) {
        1int
    } else {
        0int
    }) + (if mean_sqrt_active(c) {
        1int
    } else {
        0int
    })
}

/// The resolved pooling strategy: the four flags with their defaults applied,
/// and the dimension of the concatenated output vector.
#[derive(Clone, Copy)]
pub struct Pooling {
    pooling_mode_cls_token: bool,
    pooling_mode_max_tokens: bool,
    pooling_mode_mean_tokens: bool,
    pooling_mode_mean_sqrt_len_tokens: bool,
    pooling_output_dimension: usize,
}

impl Pooling {
    pub closed spec fn spec_cls_token(&self) -> bool {
        self.pooling_mode_cls_token
    }

    pub closed spec fn spec_max_tokens(&self) -> bool {
        self.pooling_mode_max_tokens
    }

    pub closed spec fn spec_mean_tokens(&self) -> bool {
        self.pooling_mode_mean_tokens
    }

    pub closed spec fn spec_mean_sqrt_len_tokens(&self) -> bool {
        self.pooling_mode_mean_sqrt_len_tokens
    }

    pub closed spec fn spec_output_dimension(&self) -> usize {
        self.pooling_output_dimension
    }

    /// Resolves a configuration: each unset flag takes its default (only mean
    /// pooling defaults to on), and the output dimension is the hidden
    /// dimension times the number of active strategies.
    pub fn new(config: &PoolingConfig) -> (p: Pooling)
        requires
            config.word_embedding_dimension >= 0,
        ensures
            p.spec_cls_token() == cls_active(*config),
            p.spec_max_tokens() == max_active(*config),
            p.spec_mean_tokens() == mean_active(*config),
            p.spec_mean_sqrt_len_tokens() == mean_sqrt_active(*config),
            p.spec_output_dimension() == config.word_embedding_dimension * num_active(*config),
    {
        let pooling_mode_cls_token = match config.pooling_mode_cls_token {
            Some(value) => value,
            None => false,
        };
        let pooling_mode_max_tokens = match config.pooling_mode_max_tokens {
            Some(value) => value,
            None => false,
        };
        let pooling_mode_mean_tokens = match config.pooling_mode_mean_tokens {
            Some(value) => value,
            None => true,
        };
        let pooling_mode_mean_sqrt_len_tokens = match config.pooling_mode_mean_sqrt_len_tokens {
            Some(value) => value,
            None => false,
        };
        let mut count: usize = 0;
        if pooling_mode_cls_token {
            count += 1;
        }
        if pooling_mode_max_tokens {
            count += 1;
        }
        if pooling_mode_mean_tokens {
            count += 1;
        }
        if pooling_mode_mean_sqrt_len_tokens {
            count += 1;
        }
        assert(count <= 4);
        assert(config.word_embedding_dimension <= i16::MAX);
        let pooling_output_dimension = (config.word_embedding_dimension as usize) * count;
        Pooling {
            pooling_mode_cls_token,
            pooling_mode_max_tokens,
            pooling_mode_mean_tokens,
            pooling_mode_mean_sqrt_len_tokens,
            pooling_output_dimension,
        }
    }

    pub fn cls_token(&self) -> (b: bool)
        ensures
            b == self.spec_cls_token(),
    {
        self.pooling_mode_cls_token
    }

    pub fn max_tokens(&self) -> (b: bool)
        ensures
            b == self.spec_max_tokens(),
    {
        self.pooling_mode_max_tokens
    }

    pub fn mean_tokens(&self) -> (b: bool)
        ensures
            b == self.spec_mean_tokens(),
    {
        self.pooling_mode_mean_tokens
    }

    pub fn mean_sqrt_len_tokens(&self) -> (b: bool)
        ensures
            b == self.spec_mean_sqrt_len_tokens(),
    {
        self.pooling_mode_mean_sqrt_len_tokens
    }

    pub fn output_dimension(&self) -> (d: usize)
        ensures
            d == self.spec_output_dimension(),
    {
        self.pooling_output_dimension
    }
}

/// Pooling dimension default: a configuration that sets no flag at all pools
/// by mean only, so exactly one strategy is active and the output dimension
/// equals the hidden dimension.
pub proof fn lemma_default_pooling_dimension(c: PoolingConfig)
    requires
        c.pooling_mode_cls_token is None,
        c.pooling_mode_max_tokens is None,
        c.pooling_mode_mean_tokens is None,
        c.pooling_mode_mean_sqrt_len_tokens is None,
    ensures
        mean_active(c),
        !cls_active(c) && !max_active(c) && !mean_sqrt_active(c),
        num_active(c) == 1,
        c.word_embedding_dimension * num_active(c) == c.word_embedding_dimension,
{
}

} // verus!
