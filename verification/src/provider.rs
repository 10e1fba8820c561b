//! What holds of every provider.

use vstd::prelude::*;

use crate::error::{ProviderError, ProviderErrorView};

verus! {

/// The error of a provider that is asked for embeddings and has none.
pub fn embed_unsupported() -> (r: ProviderError)
    ensures
        r@ == ProviderErrorView::Unsupported("embedding not supported by this provider"@),
{
    ProviderError::Unsupported("embedding not supported by this provider".to_string())
}

} // verus!
