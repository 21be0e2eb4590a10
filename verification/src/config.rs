//! The validated configuration handed to the core.
//!
//! These types carry plain values only; reading a file, parsing its format
//! and the command line are the surrounding tooling's work, which hands the
//! core one `RsProxyConfig` and consumes log events and exit status from it.

use vstd::prelude::*;
use vstd::string::StrSliceExecFns;
use crate::filter::spec_names;

verus! {

/// The command line surface: one optional path to the configuration file.
#[derive(Debug)]
pub struct RsProxyArgs {
    /// The configuration file path; absent means the default file name in
    /// the working directory.
    pub config: Option<String>,
}

/// The whole configuration: a list of proxy entries, possibly absent.
#[derive(Debug)]
pub struct RsProxyConfig {
    pub proxy: Option<Vec<ProxyConfig>>,
}

/// One proxy definition as configured, before validation.
#[derive(Debug)]
pub struct ProxyConfig {
    /// Absent means enabled; a disabled definition is never started.
    pub enable: Option<bool>,
    /// The definition's name, used for logging and attribution only.
    pub name: String,
    /// The port to listen on; the listen host is the wildcard address.
    pub listen: u16,
    /// The target address text, validated when the service is built.
    pub target: String,
    /// Permitted source addresses; absent or empty means permit all.
    pub allow_list: Option<Vec<String>>,
}

impl ProxyConfig {
    /// Whether this definition is to be started at all.
    pub open spec fn spec_enabled(self) -> bool {
        self.enable != Some(false)
    }

    /// The allow-list's textual contents; an absent list is an empty one.
    pub open spec fn spec_allow_names(self) -> Seq<Seq<char>> {
        match self.allow_list {
            Some(v) => spec_names(v@),
            None => Seq::empty(),
        }
    }

    /// Whether this definition is to be started.
    pub fn enabled(&self) -> (r: bool)
        ensures
            r == self.spec_enabled(),
    {
        match self.enable {
            Some(false) => false,
            _ => true,
        }
    }

    /// The allow-list as an owned vector, absent meaning empty.
    pub fn allow_list_or_empty(&self) -> (r: Vec<String>)
        ensures
            spec_names(r@) == self.spec_allow_names(),
    {
        let mut out: Vec<String> = Vec::new();
        match &self.allow_list {
            None => {
                proof {
                    assert(spec_names(out@) =~= self.spec_allow_names());
                }
            },
            Some(v) => {
                let n: usize = v.len();
                let mut i: usize = 0;
                while i < n
                    invariant
                        n == v@.len(),
                        0 <= i <= n,
                        out@.len() == i,
                        forall|j: int| 0 <= j < i ==> spec_names(out@)[j] == spec_names(v@)[j],
                    decreases n - i,
                {
                    let entry: String = v[i].clone();
                    out.push(entry);
                    i = i + 1;
                }
                proof {
                    assert(spec_names(out@) =~= spec_names(v@));
                }
            },
        }
        out
    }
}

} // verus!
