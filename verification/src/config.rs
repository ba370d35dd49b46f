//! User settings: default bar format, history size and custom formats.

use vstd::prelude::*;

verus! {

/// User settings — the "Settings" and "Custom Formats" tabs.
#[derive(Debug, Clone, PartialEq, Eq)]
pub struct Config {
    /// Format shown in the bar when no state has been saved yet.
    pub default_format: String,
    /// Max entries kept in the copy history (0 disables history).
    pub history_size: usize,
    /// Named custom strftime formats, shown alongside built-ins.
    pub customs: Vec<Custom>,
}

/// A named custom strftime format.
#[derive(Debug, Clone, PartialEq, Eq)]
pub struct Custom {
    pub name: String,
    pub format: String,
}

impl View for Custom {
    type V = (Seq<char>, Seq<char>);

    open spec fn view(&self) -> (Seq<char>, Seq<char>) {
        (self.name@, self.format@)
    }
}

impl Default for Config {
    fn default() -> (r: Config)
        ensures
            r.default_format@ == "seconds"@,
            r.history_size == 50,
            r.customs@.len() == 0,
    {
        Config {
            default_format: String::from_str("seconds"),
            history_size: 50,
            customs: Vec::new(),
        }
    }
}

} // verus!
