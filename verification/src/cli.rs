//! Command-line shapes of the program and the checks on their values.

use crate::clock::Format;
use crate::text::{parse_u64, spec_parse_u64};
use vstd::prelude::*;

verus! {

/// Shortest refresh interval the command line accepts, in milliseconds.
pub const MIN_INTERVAL_MS: u64 = 50;

/// Longest refresh interval the command line accepts, in milliseconds.
pub const MAX_INTERVAL_MS: u64 = 3_600_000;

/// Poll granularity for signal handling inside the tick loop, in milliseconds.
pub const POLL_MS: u64 = 100;

/// The parsed command line: an optional subcommand.
#[derive(Debug)]
pub struct Cli {
    pub command: Option<Command>,
}

/// The subcommands.
#[derive(Debug)]
pub enum Command {
    /// Stream waybar JSON lines forever (default command)
    Run(RunArgs),
    /// Print a single waybar JSON line and exit
    Once(RunArgs),
    /// Print a timestamp in any format (pipe it to wl-copy)
    Copy(CopyArgs),
    /// List all format keys with live examples
    Formats,
    /// Change the format the bar shows
    SetFormat(SetArgs),
    /// Flip the bar between seconds and milliseconds
    Toggle,
    /// Print the dropdown menu XML for waybar
    Menu(MenuArgs),
    /// Generate module CSS from the active omarchy theme
    Css(CssArgs),
    /// Print a ready-to-paste waybar module config
    Snippet,
}

/// Options of the `copy` command.
#[derive(Debug, Clone)]
pub struct CopyArgs {
    /// Format key (or `custom:<strftime>`); the bar's format when absent
    pub format: Option<String>,
}

/// Options of the `set` command.
#[derive(Debug, Clone)]
pub struct SetArgs {
    /// Format key (or `custom:<strftime>`) the bar shows from now on
    pub format: String,
}

/// Options of the `menu` command.
#[derive(Debug)]
pub struct MenuArgs {
    /// Write to ~/.config/waybar/unixtime-menu.xml instead of stdout
    pub install: bool,
}

/// Options of the commands that print timestamps.
#[derive(Debug, Clone)]
pub struct RunArgs {
    /// Start in milliseconds mode instead of seconds
    pub millis: bool,
    /// Refresh interval in milliseconds
    pub interval: u64,
}

/// Refresh interval when none is given, in milliseconds.
pub const DEFAULT_INTERVAL_MS: u64 = 1000;

impl Default for RunArgs {
    /// The options the command line gives when none are passed: seconds, and
    /// a refresh every second.
    fn default() -> (r: RunArgs)
        ensures
            !r.millis,
            r.interval == DEFAULT_INTERVAL_MS,
    {
        RunArgs { millis: false, interval: DEFAULT_INTERVAL_MS }
    }
}

/// Options of the `css` command.
#[derive(Debug)]
pub struct CssArgs {
    /// Write to ~/.config/waybar/unixtime.css instead of stdout
    pub install: bool,
}

impl Default for CssArgs {
    fn default() -> (r: CssArgs)
        ensures
            !r.install,
    {
        CssArgs { install: false }
    }
}

/// What `interval_range` answers for a raw `--interval` value.
pub open spec fn interval_range_spec(raw: Seq<char>) -> Result<u64, Seq<char>> {
    match spec_parse_u64(raw) {
        None => Err("not a number"@),
        Some(v) => if MIN_INTERVAL_MS <= v <= MAX_INTERVAL_MS {
            Ok(v)
        } else {
            Err("interval must be 50..=3600000 ms"@)
        },
    }
}

/// Parses a refresh interval, which must lie in 50..=3600000 ms.
pub fn interval_range(raw: &str) -> (r: Result<u64, String>)
    ensures
        r matches Ok(v) ==> interval_range_spec(raw@) == Ok::<u64, Seq<char>>(v),
        r matches Err(e) ==> interval_range_spec(raw@) == Err::<u64, Seq<char>>(e@),
{
    match parse_u64(raw) {
        None => Err(String::from_str("not a number")),
        Some(value) => {
            if MIN_INTERVAL_MS <= value && value <= MAX_INTERVAL_MS {
                Ok(value)
            } else {
                Err(String::from_str("interval must be 50..=3600000 ms"))
            }
        },
    }
}

/// The bar format a command starts in.
pub fn start_format(args: &RunArgs) -> (r: Format)
    ensures
        r == (if args.millis {
            Format::Millis
        } else {
            Format::Seconds
        }),
{
    if args.millis {
        Format::Millis
    } else {
        Format::Seconds
    }
}

/// How long the tick loop sleeps next: one poll step, or what is left of the
/// interval when that is shorter.
pub fn poll_sleep_ms(interval: u64, slept: u64) -> (r: u64)
    requires
        slept < interval,
    ensures
        r == (if POLL_MS <= interval - slept {
            POLL_MS as int
        } else {
            interval - slept
        }),
        0 < r <= POLL_MS,
{
    let left = interval - slept;
    if POLL_MS <= left {
        POLL_MS
    } else {
        left
    }
}

/// What the tick loop does after one poll step of sleep.
#[derive(Debug, Clone, Copy, PartialEq, Eq, Structural)]
pub enum Wake {
    /// A toggle was signalled: switch format and print at once.
    Toggle,
    /// The interval is over: print the next line.
    Emit,
    /// Keep sleeping, with this much of the interval slept.
    Sleep(u64),
}

/// The step after sleeping one poll step with `slept` of `interval` behind:
/// a signal toggles at once, else the line is due once a whole interval is
/// slept, else sleeping goes on.
pub fn wake(interval: u64, slept: u64, signalled: bool) -> (r: Wake)
    requires
        slept < interval,
    ensures
        signalled ==> r == Wake::Toggle,
        !signalled && slept + POLL_MS >= interval ==> r == Wake::Emit,
        !signalled && slept + POLL_MS < interval ==> r == Wake::Sleep((slept + POLL_MS) as u64),
{
    if signalled {
        Wake::Toggle
    } else if POLL_MS >= interval - slept {
        Wake::Emit
    } else {
        Wake::Sleep(slept + POLL_MS)
    }
}

} // verus!
