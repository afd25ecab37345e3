//! The configuration one command invocation runs with.
//!
//! Three layers feed it: what the caller supplied on the command line, what
//! the configuration file stores, and the built-in defaults.  Resolution
//! takes each field from the first layer that sets it.

use crate::config::{clone_opt, opt_str_eq, view_opt};
use vstd::prelude::*;

verus! {

/// The resolved per-invocation settings.
#[derive(Debug)]
pub struct RuntimeConfig {
    pub pip_args: Option<String>,
    pub python: Option<String>,
    pub bucket: Option<String>,
}

/// The mathematical value of a [`RuntimeConfig`].
pub struct RuntimeConfigView {
    pub pip_args: Option<Seq<char>>,
    pub python: Option<Seq<char>>,
    pub bucket: Option<Seq<char>>,
}

impl View for RuntimeConfig {
    type V = RuntimeConfigView;

    open spec fn view(&self) -> RuntimeConfigView {
        RuntimeConfigView {
            pip_args: view_opt(self.pip_args),
            python: view_opt(self.python),
            bucket: view_opt(self.bucket),
        }
    }
}

impl Clone for RuntimeConfig {
    /// A copy denotes the same settings.
    fn clone(&self) -> (r: Self)
        ensures
            r@ == self@,
    {
        RuntimeConfig {
            pip_args: clone_opt(&self.pip_args),
            python: clone_opt(&self.python),
            bucket: clone_opt(&self.bucket),
        }
    }
}

impl PartialEq for RuntimeConfig {
    fn eq(&self, other: &Self) -> (r: bool) {
        opt_str_eq(&self.pip_args, &other.pip_args) && opt_str_eq(&self.python, &other.python)
            && opt_str_eq(&self.bucket, &other.bucket)
    }
}

impl vstd::std_specs::cmp::PartialEqSpecImpl for RuntimeConfig {
    open spec fn obeys_eq_spec() -> bool {
        true
    }

    open spec fn eq_spec(&self, other: &Self) -> bool {
        self@ == other@
    }
}

/// The first of two optional values that is set.
pub open spec fn opt_or(a: Option<Seq<char>>, b: Option<Seq<char>>) -> Option<Seq<char>> {
    match a {
        Some(_) => a,
        None => b,
    }
}

/// Takes the first of two optional values that is set.
fn opt_or_exec(a: Option<String>, b: Option<String>) -> (r: Option<String>)
    ensures
        view_opt(r) == opt_or(view_opt(a), view_opt(b)),
{
    match a {
        Some(x) => Some(x),
        None => b,
    }
}

impl RuntimeConfig {
    /// The built-in defaults: nothing set.
    pub fn default() -> (r: RuntimeConfig)
        ensures
            r@.bucket is None,
            r@.pip_args is None,
            r@.python is None,
    {
        RuntimeConfig { pip_args: None, python: None, bucket: None }
    }

    /// Layers the three sources: each field comes from the caller when
    /// supplied, else from the stored configuration, else from the
    /// defaults.
    pub fn resolve(supplied: RuntimeConfig, stored: RuntimeConfig, defaults: RuntimeConfig) -> (r:
        RuntimeConfig)
        ensures
            r@.bucket == opt_or(supplied@.bucket, opt_or(stored@.bucket, defaults@.bucket)),
            r@.pip_args == opt_or(supplied@.pip_args, opt_or(stored@.pip_args, defaults@.pip_args)),
            r@.python == opt_or(supplied@.python, opt_or(stored@.python, defaults@.python)),
    {
        RuntimeConfig {
            pip_args: opt_or_exec(supplied.pip_args, opt_or_exec(stored.pip_args, defaults.pip_args)),
            python: opt_or_exec(supplied.python, opt_or_exec(stored.python, defaults.python)),
            bucket: opt_or_exec(supplied.bucket, opt_or_exec(stored.bucket, defaults.bucket)),
        }
    }
}

} // verus!
