//! The settings that the wiki is started with.

use vstd::prelude::*;
use vstd::string::StringExecFns;

verus! {

/// The wiki's name, its main page, and the path that `/` leads to.
#[derive(Debug)]
pub struct Config {
    pub site_name: String,
    pub main_page: String,
    pub default_path: String,
}

/// The path that `/` leads to: the one that was set, or the main page where
/// none was.
pub open spec fn resolved_path(default_path: Seq<char>, main_page: Seq<char>) -> Seq<char> {
    if default_path.len() == 0 {
        seq!['/'] + main_page
    } else {
        default_path
    }
}

impl Config {
    /// Fills in the default path where none was set: it then leads to the
    /// main page.
    pub fn resolve_default_path(&mut self)
        ensures
            final(self).site_name@ == old(self).site_name@,
            final(self).main_page@ == old(self).main_page@,
            final(self).default_path@ == resolved_path(old(self).default_path@, old(self).main_page@),
    {
        if self.default_path.as_str().is_empty() {
            let mut path = String::from_str("/");
            proof {
                reveal_strlit("/");
                assert("/"@ =~= seq!['/']);
            }
            path.append(self.main_page.as_str());
            self.default_path = path;
        }
    }
}

} // verus!
