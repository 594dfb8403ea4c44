//! What the handlers share: the settings, the cache and the mask.

use crate::cache::{create_cache, HtmlCache};
use crate::codec::{chacha8_keystream, zero_nonce, Mask};
use crate::config::Config;
use vstd::prelude::*;

verus! {

/// The shared state of one instance.
pub struct State {
    /// The settings.
    pub config: Config,
    /// The cache of rendered pastes.
    pub cache: HtmlCache,
    /// The mask of the tokens.
    pub mask: Mask,
}

impl State {
    /// The state that an instance starts with: an empty cache under the
    /// limit of the settings, and the mask drawn from their secret key.
    pub fn new(config: Config) -> (state: State)
        requires
            config.valid(),
        ensures
            state.config == config,
            state.cache.wf(),
            state.cache@ == Seq::<(i64, Seq<char>)>::empty(),
            state.cache.limit() == config.cache_limit,
            state.mask@ == chacha8_keystream(config.id_key@, zero_nonce()),
    {
        let cache = create_cache(&config);
        let mask = Mask::derive(&config.id_key);
        State { config, cache, mask }
    }
}

} // verus!
