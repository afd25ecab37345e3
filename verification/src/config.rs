//! The stored configuration.
//!
//! The configuration file carries three optional defaults: the bucket name,
//! extra arguments for the package installer, and the interpreter to run it
//! with.  Reading and writing the file belongs to the surrounding program;
//! this module holds the values and the rule that a missing file reads as
//! the empty configuration.

use vstd::prelude::*;

verus! {

/// An optional text value as its mathematical view.
pub open spec fn view_opt(o: Option<String>) -> Option<Seq<char>> {
    match o {
        None => None,
        Some(s) => Some(s@),
    }
}

/// Copies an optional text value.
pub fn clone_opt(o: &Option<String>) -> (r: Option<String>)
    ensures
        view_opt(r) == view_opt(*o),
{
    match o {
        None => None,
        Some(s) => Some(s.clone()),
    }
}

/// Compares two optional text values by content.
pub fn opt_str_eq(a: &Option<String>, b: &Option<String>) -> (r: bool)
    ensures
        r == (view_opt(*a) == view_opt(*b)),
{
    match (a, b) {
        (None, None) => true,
        (Some(x), Some(y)) => crate::chars::str_eq(x.as_str(), y.as_str()),
        _ => false,
    }
}

/// The stored defaults: bucket name, installer arguments, interpreter.
#[derive(Debug)]
pub struct Config {
    pub default_bucket_name: Option<String>,
    pub default_pip_args: Option<String>,
    pub default_python_interpreter: Option<String>,
}

/// The mathematical value of a [`Config`].
pub struct ConfigView {
    pub default_bucket_name: Option<Seq<char>>,
    pub default_pip_args: Option<Seq<char>>,
    pub default_python_interpreter: Option<Seq<char>>,
}

impl View for Config {
    type V = ConfigView;

    open spec fn view(&self) -> ConfigView {
        ConfigView {
            default_bucket_name: view_opt(self.default_bucket_name),
            default_pip_args: view_opt(self.default_pip_args),
            default_python_interpreter: view_opt(self.default_python_interpreter),
        }
    }
}

/// The configuration that an absent file denotes: nothing set.
pub open spec fn empty_config() -> ConfigView {
    ConfigView {
        default_bucket_name: None,
        default_pip_args: None,
        default_python_interpreter: None,
    }
}

impl Clone for Config {
    /// A copy denotes the same configuration.
    fn clone(&self) -> (r: Self)
        ensures
            r@ == self@,
    {
        Config {
            default_bucket_name: clone_opt(&self.default_bucket_name),
            default_pip_args: clone_opt(&self.default_pip_args),
            default_python_interpreter: clone_opt(&self.default_python_interpreter),
        }
    }
}

impl PartialEq for Config {
    fn eq(&self, other: &Self) -> (r: bool) {
        opt_str_eq(&self.default_bucket_name, &other.default_bucket_name) && opt_str_eq(
            &self.default_pip_args,
            &other.default_pip_args,
        ) && opt_str_eq(&self.default_python_interpreter, &other.default_python_interpreter)
    }
}

impl vstd::std_specs::cmp::PartialEqSpecImpl for Config {
    open spec fn obeys_eq_spec() -> bool {
        true
    }

    open spec fn eq_spec(&self, other: &Self) -> bool {
        self@ == other@
    }
}

impl Config {
    /// What loading yields: the stored configuration when the file was
    /// there, the empty configuration when it was not.
    pub fn load(stored: Option<Config>) -> (r: Config)
        ensures
            stored matches Some(c) ==> r@ == c@,
            stored is None ==> r@ == empty_config(),
    {
        match stored {
            Some(c) => c,
            None => Config {
                default_bucket_name: None,
                default_pip_args: None,
                default_python_interpreter: None,
            },
        }
    }

    /// The stored defaults as one layer of the runtime configuration.
    pub fn as_runtime_config(&self) -> (r: crate::runtime_config::RuntimeConfig)
        ensures
            r@.bucket == self@.default_bucket_name,
            r@.pip_args == self@.default_pip_args,
            r@.python == self@.default_python_interpreter,
    {
        crate::runtime_config::RuntimeConfig {
            bucket: clone_opt(&self.default_bucket_name),
            pip_args: clone_opt(&self.default_pip_args),
            python: clone_opt(&self.default_python_interpreter),
        }
    }
}

} // verus!
