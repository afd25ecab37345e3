//! A configuration under edit, with a dirty flag.
//!
//! The running command may fill unset defaults from its arguments.  The
//! active configuration records whether anything actually changed, so that
//! an unchanged file is never rewritten: saving hands the configuration
//! back only when it is dirty.

use crate::config::Config;
use vstd::prelude::*;

verus! {

/// A configuration value together with whether it differs from what the
/// file stores.
#[derive(Debug)]
pub struct ActiveConfig {
    config: Config,
    dirty: bool,
}

/// The mathematical value of an [`ActiveConfig`].
pub struct ActiveConfigView {
    pub config: crate::config::ConfigView,
    pub dirty: bool,
}

impl View for ActiveConfig {
    type V = ActiveConfigView;

    closed spec fn view(&self) -> ActiveConfigView {
        ActiveConfigView { config: self.config@, dirty: self.dirty }
    }
}

impl ActiveConfig {
    /// The configuration value held, as a spec-level handle; it lets a
    /// caller relate an edit to the contract of the closure it passed.
    pub closed spec fn spec_config(&self) -> Config {
        self.config
    }

    /// Starts from a freshly loaded configuration, which is clean.
    pub fn from(config: Config) -> (r: ActiveConfig)
        ensures
            r@.config == config@,
            r@.dirty == false,
    {
        ActiveConfig { config, dirty: false }
    }

    /// The current configuration value.
    pub fn get(&self) -> (r: &Config)
        ensures
            r@ == self@.config,
    {
        &self.config
    }

    /// What saving writes: the configuration when it is dirty, nothing
    /// when it is unchanged.
    pub fn save(&self) -> (r: Option<&Config>)
        ensures
            self@.dirty ==> (r matches Some(c) && c@ == self@.config),
            !self@.dirty ==> r is None,
    {
        if !self.dirty {
            None
        } else {
            Some(&self.config)
        }
    }

    /// Applies one edit: the configuration becomes what `f` makes of it,
    /// and the dirty flag is raised exactly when some edit so far has
    /// changed the value.  Yields the dirty flag.
    pub fn mutate<F: FnOnce(&Config) -> Config>(&mut self, f: F) -> (r: bool)
        requires
            call_requires(f, (&old(self).spec_config(),)),
        ensures
            call_ensures(f, (&old(self).spec_config(),), final(self).spec_config()),
            final(self)@.config == final(self).spec_config()@,
            old(self)@.config == old(self).spec_config()@,
            final(self)@.dirty == (old(self)@.dirty || final(self)@.config != old(self)@.config),
            r == final(self)@.dirty,
    {
        let next = f(&self.config);
        let changed = !(next == self.config);
        self.dirty = self.dirty || changed;
        self.config = next;
        self.dirty
    }
}

} // verus!
