//! Start and stop of the pipeline as a whole.

use vstd::prelude::*;
use crate::config::Config;

verus! {

/// Owns the configuration the pipeline runs with.
pub struct RuntimeManager {
    config: Config,
}

impl RuntimeManager {
    /// The configuration this manager runs with.
    pub closed spec fn config(&self) -> Config {
        self.config
    }

    /// A manager for `config`. Nothing is started.
    pub fn new(config: Config) -> (manager: RuntimeManager)
        ensures
            manager.config() == config,
    {
        RuntimeManager { config }
    }

    /// Starts the pipeline. The configuration must be valid; no stage is
    /// wired in, so nothing else happens and the configuration is kept.
    pub fn start(&mut self)
        requires
            old(self).config().is_valid(),
        ensures
            final(self).config() == old(self).config(),
    {
        let checked = self.config.validate();
        assert(checked is Ok);
    }

    /// Waits until the pipeline has shut down. Nothing is running, so it
    /// returns at once.
    pub fn wait_for_shutdown(&self) {
    }
}

} // verus!
