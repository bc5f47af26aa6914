//! The run configuration, and what follows from it: which directory the
//! scan starts in and which target names it looks for.

use vstd::prelude::*;

use crate::profiles::{get_targets_for_profiles, spec_targets_for_profiles};
use crate::text::seq_views;

verus! {

/// Everything a run can be asked to do. Parsing the command line into this
/// record is outside work; the derivations from it are verified here.
#[derive(Debug)]
pub struct Args {
    pub profiles: Option<Vec<String>>,
    pub directory: String,
    pub delete_all: bool,
    pub exclude: Option<Vec<String>>,
    pub full: bool,
    pub size_unit: String,
    pub sort: String,
    pub targets: Option<Vec<String>>,
    pub exclude_sensitive: bool,
    pub dry_run: bool,
    pub json_stream: bool,
    pub json: bool,
    pub follow_links: bool,
    pub respect_ignore: bool,
}

impl Args {
    /// The target names this run searches for: the explicit targets when
    /// given, otherwise the targets of the named profiles, defaulting to
    /// every profile.
    pub fn effective_targets(&self) -> (r: Vec<String>)
        ensures
            self.targets matches Some(t) ==> seq_views(r@) == seq_views(t@),
            self.targets is None ==> seq_views(r@) == spec_targets_for_profiles(
                match self.profiles {
                    Some(p) => seq_views(p@),
                    None => seq!["all"@],
                },
            ),
    {
        match &self.targets {
            Some(t) => {
                let mut r: Vec<String> = Vec::new();
                let mut i: usize = 0;
                while i < t.len()
                    invariant
                        i <= t@.len(),
                        seq_views(r@) == seq_views(t@).take(i as int),
                    decreases t@.len() - i,
                {
                    let ghost pre = r@;
                    let x = t[i].clone();
                    proof {
                        assert(x == t@[i as int]);
                    }
                    r.push(x);
                    i = i + 1;
                    proof {
                        assert(r@ =~= pre.push(t@[i - 1]));
                        assert(seq_views(r@) =~= seq_views(pre).push(t@[i - 1]@));
                        assert(seq_views(t@)[i - 1] == t@[i - 1]@);
                        assert(seq_views(r@) =~= seq_views(t@).take(i as int));
                    }
                }
                proof {
                    assert(seq_views(t@).take(t@.len() as int) =~= seq_views(t@));
                }
                r
            },
            None => {
                match &self.profiles {
                    Some(p) => get_targets_for_profiles(p),
                    None => {
                        let mut names: Vec<String> = Vec::new();
                        names.push("all".to_owned());
                        proof {
                            assert(seq_views(names@) =~= seq!["all"@]);
                        }
                        get_targets_for_profiles(&names)
                    },
                }
            },
        }
    }

    /// Where the scan starts: the home directory when a full scan was
    /// asked for and the environment offers one, else the configured
    /// directory.
    pub fn effective_directory(&self) -> (r: String)
        ensures
            !self.full ==> r == self.directory,
    {
        if self.full {
            match crate::risk::home_dir_string() {
                Some(h) => h,
                None => self.directory.clone(),
            }
        } else {
            self.directory.clone()
        }
    }
}

} // verus!
