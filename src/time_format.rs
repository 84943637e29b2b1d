use vstd::prelude::*;
use vstd::string::StringExecFns;

verus! {

/// The log line timestamp: a fixed marker in place of the time of day.
pub struct ShortTime;

impl ShortTime {
    /// The text written where a log line's time would stand.
    pub fn format_time(&self) -> (r: String)
        ensures
            r@ == "=>"@,
    {
        String::from_str("=>")
    }
}

} // verus!
