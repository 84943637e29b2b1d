use vstd::prelude::*;

verus! {

/// Command-line options: list the release tags, or print repository information.
pub struct Cli {
    pub list_tags: Option<bool>,
    pub repo_info: Option<bool>,
}

} // verus!
