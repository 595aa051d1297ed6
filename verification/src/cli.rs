//! The lines that a terminal shows for a run.

use crate::progress::{all_received, TransferStats};
use crate::text::{decimal, decimal_text};
use vstd::prelude::*;
use vstd::string::*;

verus! {

/// Ends a colored stretch.
pub const RESET: &'static str = "\x1b[0m";

/// Opens the line of a target that starts.
pub const STARTING: &'static str = "\x1b[1;96mstarting\x1b[0m \x1b[93m";

/// Opens the line of a target whose backup starts.
pub const BACKUP: &'static str = "\x1b[1;96mbackup \x1b[0;93m";

/// Opens the line of a transfer that receives objects.
pub const PULLING: &'static str = "\x1b[94mpulling\x1b[0m \x1b[93m";

/// Opens the line of a transfer that resolves deltas or passes on what the
/// remote says.
pub const RESOLVING: &'static str = "\x1b[35mpulling\x1b[0m \x1b[93m";

/// Opens the line of a target that is done.
pub const DONE: &'static str = "\x1b[1;96mdone\x1b[0m \x1b[0;93m";

/// Stands between the name of a target that is done and its branch.
pub const BRANCH: &'static str = "\x1b[0m \x1b[4;36m";

/// Opens the line of a failure.
pub const ERROR: &'static str = "\x1b[1;31mError:\x1b[0m ";

/// What the line of a target that is done ends in where a fetch found it changed.
pub const UPDATED_MARK: &'static str = " \u{f8}";

/// The characters of a bar on a graphical terminal: filled, current, empty.
pub const BAR_BLOCKS: &'static str = "\u{25a0}\u{25a0}\u{25a1}";

/// The characters of a bar on a plain terminal: filled, current, empty.
pub const BAR_PLAIN: &'static str = "++-";

/// Opens the last line of a run.
pub const COMPLETED: &'static str =
    "\u{2517}\u{2578}\x1b[1mCOMPLETED\x1b[0m \x1b[37m(\x1b[0m\x1b[1;92m";

/// Stands between the two counts of the last line.
pub const COMPLETED_SLASH: &'static str = "\x1b[0m\x1b[37m/\x1b[0m\x1b[1;91m";

/// Closes the last line of a run.
pub const COMPLETED_END: &'static str = "\x1b[0m\x1b[37m)\x1b[0m";

/// The characters of the bar: blocks on a Unix system with a display and on a
/// Mac, plain ones elsewhere.
pub fn bar_chars(unix: bool, display: bool, macos: bool) -> (chars: &'static str)
    ensures
        chars@ == if unix && (display || macos) {
            BAR_BLOCKS@
        } else {
            BAR_PLAIN@
        },
{
    if unix {
        if display || macos {
            BAR_BLOCKS
        } else {
            BAR_PLAIN
        }
    } else {
        BAR_PLAIN
    }
}

/// The line of a target that starts.
pub fn starting_message(name: &str) -> (line: String)
    ensures
        line@ == STARTING@ + name@ + RESET@,
{
    let mut line = STARTING.to_owned();
    line.append(name);
    line.append(RESET);
    line
}

/// The line of a target whose backup starts.
pub fn backup_message(name: &str) -> (line: String)
    ensures
        line@ == BACKUP@ + name@ + RESET@,
{
    let mut line = BACKUP.to_owned();
    line.append(name);
    line.append(RESET);
    line
}

/// The line of a target that is done: its name, its branch, and `status`.
pub fn done_message(name: &str, branch: &str, status: &str) -> (line: String)
    ensures
        line@ == DONE@ + name@ + BRANCH@ + branch@ + RESET@ + status@,
{
    let mut line = DONE.to_owned();
    line.append(name);
    line.append(BRANCH);
    line.append(branch);
    line.append(RESET);
    line.append(status);
    line
}

/// The line of a target that failed.
pub fn error_message(name: &str, error: &str) -> (line: String)
    ensures
        line@ == ERROR@ + name@ + seq![':', ' '] + error@,
{
    let mut line = ERROR.to_owned();
    line.append(name);
    line.append(": ");
    line.append(error);
    proof {
        reveal_strlit(": ");
        assert(": "@ =~= seq![':', ' ']);
    }
    line
}

/// The line that passes on what the remote says.
pub fn sideband_message(name: &str, said: &str) -> (line: String)
    ensures
        line@ == RESOLVING@ + name@ + RESET@ + " remote: "@ + said@,
{
    let mut line = RESOLVING.to_owned();
    line.append(name);
    line.append(RESET);
    line.append(" remote: ");
    line.append(said);
    line
}

/// The line of a ref that a fetch moved: a new ref shows the object it names,
/// another one the object it named and the one it names now.
pub fn tip_message(refname: &str, old: &str, new: &str, old_is_zero: bool) -> (line: String)
    ensures
        line@ == if old_is_zero {
            "[new]     "@ + new@ + seq![' '] + refname@
        } else {
            "[updated] "@ + old@ + seq!['.', '.'] + new@ + seq![' '] + refname@
        },
{
    proof {
        reveal_strlit(" ");
        reveal_strlit("..");
        assert(" "@ =~= seq![' ']);
        assert(".."@ =~= seq!['.', '.']);
    }
    if old_is_zero {
        let mut line = "[new]     ".to_owned();
        line.append(new);
        line.append(" ");
        line.append(refname);
        line
    } else {
        let mut line = "[updated] ".to_owned();
        line.append(old);
        line.append("..");
        line.append(new);
        line.append(" ");
        line.append(refname);
        line
    }
}

/// What `indicatif::HumanBytes` shows for a number of bytes.
pub uninterp spec fn human_bytes_text(bytes: u64) -> Seq<char>;

/// Formats `bytes` with the `Display` of `indicatif::HumanBytes`. The contract
/// claims only that the text is a function of the number, and gives that
/// function the name `human_bytes_text`.
#[verifier::external_body]
fn human_bytes(bytes: u64) -> (text: String)
    ensures
        text@ == human_bytes_text(bytes),
{
    indicatif::HumanBytes(bytes).to_string()
}

/// `a`, a slash, `b`, both in decimal.
pub open spec fn ratio_text(a: nat, b: nat) -> Seq<char> {
    decimal(a) + seq!['/'] + decimal(b)
}

/// Appends `a/b` to `line`.
fn append_ratio(line: &mut String, a: usize, b: usize)
    ensures
        final(line)@ == old(line)@ + ratio_text(a as nat, b as nat),
{
    line.append(decimal_text(a as u64).as_str());
    line.append("/");
    line.append(decimal_text(b as u64).as_str());
    proof {
        reveal_strlit("/");
        assert("/"@ =~= seq!['/']);
        assert(line@ =~= old(line)@ + ratio_text(a as nat, b as nat));
    }
}

/// The line of a transfer in progress, for a size already put into words:
/// deltas indexed of deltas in all once every object has been received, objects
/// received of objects in all before, and nothing while no totals are known.
pub open spec fn transfer_message_of(name: Seq<char>, stats: TransferStats, size: Seq<char>) -> Option<
    Seq<char>,
> {
    if all_received(stats) {
        Some(
            RESOLVING@ + name + RESET@ + " resolving deltas "@ + ratio_text(
                stats.indexed_deltas as nat,
                stats.total_deltas as nat,
            ),
        )
    } else if stats.total_objects > 0 {
        Some(
            PULLING@ + name + RESET@ + " received "@ + ratio_text(
                stats.received_objects as nat,
                stats.total_objects as nat,
            ) + " | indexed "@ + decimal(stats.indexed_objects as nat) + " in "@ + size,
        )
    } else {
        None
    }
}

/// The view of a line that may be missing.
pub open spec fn line_view(line: Option<String>) -> Option<Seq<char>> {
    match line {
        Some(l) => Some(l@),
        None => None,
    }
}

/// The line of a transfer in progress, with the bytes received put into words
/// as `size`; see [`transfer_message_of`].
pub fn transfer_message_with(name: &str, stats: &TransferStats, size: &str) -> (line: Option<String>)
    ensures
        line_view(line) == transfer_message_of(name@, *stats, size@),
{
    if stats.received_objects == stats.total_objects {
        let mut line = RESOLVING.to_owned();
        line.append(name);
        line.append(RESET);
        line.append(" resolving deltas ");
        append_ratio(&mut line, stats.indexed_deltas, stats.total_deltas);
        Some(line)
    } else if stats.total_objects > 0 {
        let mut line = PULLING.to_owned();
        line.append(name);
        line.append(RESET);
        line.append(" received ");
        append_ratio(&mut line, stats.received_objects, stats.total_objects);
        line.append(" | indexed ");
        line.append(decimal_text(stats.indexed_objects as u64).as_str());
        line.append(" in ");
        line.append(size);
        Some(line)
    } else {
        None
    }
}

/// The line of a transfer in progress, with the bytes received in the words of
/// `indicatif::HumanBytes`.
pub fn transfer_message(name: &str, stats: &TransferStats) -> (line: Option<String>)
    ensures
        line_view(line) == transfer_message_of(
            name@,
            *stats,
            human_bytes_text(stats.received_bytes as u64),
        ),
{
    let size = human_bytes(stats.received_bytes as u64);
    transfer_message_with(name, stats, size.as_str())
}

/// The line of a fetch that has ended, for a size already put into words:
/// objects indexed of objects in all, the size, and the number of local
/// objects used where there were any.
pub open spec fn fetch_message_of(name: Seq<char>, stats: TransferStats, size: Seq<char>) -> Seq<
    char,
> {
    let head = PULLING@ + name + RESET@ + " received "@ + ratio_text(
        stats.indexed_objects as nat,
        stats.total_objects as nat,
    ) + " in "@ + size;
    if stats.local_objects > 0 {
        head + " (used "@ + decimal(stats.local_objects as nat) + " local objects)"@
    } else {
        head
    }
}

/// The line of a fetch that has ended, with the bytes received put into words
/// as `size`; see [`fetch_message_of`].
pub fn fetch_message_with(name: &str, stats: &TransferStats, size: &str) -> (line: String)
    ensures
        line@ == fetch_message_of(name@, *stats, size@),
{
    let mut line = PULLING.to_owned();
    line.append(name);
    line.append(RESET);
    line.append(" received ");
    append_ratio(&mut line, stats.indexed_objects, stats.total_objects);
    line.append(" in ");
    line.append(size);
    if stats.local_objects > 0 {
        line.append(" (used ");
        line.append(decimal_text(stats.local_objects as u64).as_str());
        line.append(" local objects)");
    }
    line
}

/// The line of a fetch that has ended, with the bytes received in the words of
/// `indicatif::HumanBytes`.
pub fn fetch_message(name: &str, stats: &TransferStats) -> (line: String)
    ensures
        line@ == fetch_message_of(name@, *stats, human_bytes_text(stats.received_bytes as u64)),
{
    let size = human_bytes(stats.received_bytes as u64);
    fetch_message_with(name, stats, size.as_str())
}

/// The last line of a run: the number of targets completed and, where any
/// failed, the number of failures.
pub open spec fn completed_line_of(completed: nat, errors: nat) -> Seq<char> {
    if errors > 0 {
        COMPLETED@ + decimal(completed) + COMPLETED_SLASH@ + decimal(errors) + COMPLETED_END@
    } else {
        COMPLETED@ + decimal(completed) + COMPLETED_END@
    }
}

/// The last line of a run; see [`completed_line_of`].
pub fn completed_line(completed: usize, errors: usize) -> (line: String)
    ensures
        line@ == completed_line_of(completed as nat, errors as nat),
{
    let mut line = COMPLETED.to_owned();
    line.append(decimal_text(completed as u64).as_str());
    if errors > 0 {
        line.append(COMPLETED_SLASH);
        line.append(decimal_text(errors as u64).as_str());
    }
    line.append(COMPLETED_END);
    line
}

/// The status that the process ends with: failure where a target failed.
pub fn exit_code(errors: usize) -> (code: i32)
    ensures
        code == if errors > 0 {
            1i32
        } else {
            0i32
        },
{
    if errors > 0 {
        1
    } else {
        0
    }
}

} // verus!
