use crate::event::{Event, EventView};
use vstd::prelude::*;

verus! {

/// Which end of a sensor's range is being calibrated.
#[derive(Clone, Copy, Debug, PartialEq, Eq, Structural)]
pub enum Bound {
    Low,
    High,
}

/// Calibration of the soil humidity sensor.
#[derive(Clone, Copy, Debug, PartialEq, Eq, Structural)]
pub struct HygroSoil {
    pub bound: Bound,
}

/// Calibration of the ambient humidity sensor.
#[derive(Clone, Copy, Debug, PartialEq, Eq, Structural)]
pub struct HygroAmbiant {
    pub bound: Bound,
}

/// Calibration of the thermometer.
#[derive(Clone, Copy, Debug, PartialEq, Eq, Structural)]
pub struct Thermometer {
    pub bound: Bound,
}

/// The sensor a calibration command is about.
#[derive(Clone, Copy, Debug, PartialEq, Eq, Structural)]
pub enum CalibrateSensor {
    HygroSoil(HygroSoil),
    Thermometer(Thermometer),
    HygroAmbiant(HygroAmbiant),
}

/// A command typed in the interactive shell.
#[derive(Debug)]
pub enum Subcommand {
    /// Show the messages the Arduino sent since last time.
    Logs,
    /// Upload the plant described in this file.
    Load(String),
    /// Water now, for the given duration (never 0) and then wait.
    Dispense(Option<u32>, Option<u32>),
    /// Calibrate a sensor.
    Calibrate(CalibrateSensor),
    /// Start the TCP server on this port (0 for the default one).
    Server(u16),
}

/// What the shell does for a command.
#[derive(Debug)]
pub enum ShellAction {
    /// Print the pending log messages.
    ShowLogs,
    /// Read and parse this plant file, then upload it.
    LoadPlantFile(String),
    /// Hand this event to the main loop.
    Send(Event),
    /// Tell the user that this sensor cannot be calibrated from here.
    CalibrationUnavailable(CalibrateSensor),
}

/// The watering duration used when none is given.
pub const DEFAULT_DISPENSE_DURATION: u32 = 0;

/// The wait after watering used when none is given.
pub const DEFAULT_DISPENSE_WAIT: u32 = u32::MAX;

/// What the shell does for `cmd`. Sensors cannot be calibrated from the
/// shell yet: a calibration command is answered as such, and the shell goes
/// on.
pub fn shell_action(cmd: Subcommand) -> (a: ShellAction)
    requires
        !(cmd matches Subcommand::Dispense(Some(duration), _) && duration == 0),
    ensures
        cmd is Logs ==> a is ShowLogs,
        cmd matches Subcommand::Load(file) ==> (a matches ShellAction::LoadPlantFile(f) && f@
            == file@),
        cmd matches Subcommand::Dispense(duration, wait) ==> (a matches ShellAction::Send(e) && e@
            == EventView::Dispense(
            match duration {
                Some(d) => d,
                None => DEFAULT_DISPENSE_DURATION,
            },
            match wait {
                Some(w) => w,
                None => DEFAULT_DISPENSE_WAIT,
            },
        )),
        cmd matches Subcommand::Server(port) ==> (a matches ShellAction::Send(e) && e@
            == EventView::StartServer(port)),
        cmd matches Subcommand::Calibrate(sensor) ==> (a matches ShellAction::CalibrationUnavailable(
            s,
        ) && s == sensor),
{
    match cmd {
        Subcommand::Logs => ShellAction::ShowLogs,
        Subcommand::Load(file) => ShellAction::LoadPlantFile(file),
        Subcommand::Dispense(duration, wait) => {
            let d = match duration {
                Some(d) => d,
                None => DEFAULT_DISPENSE_DURATION,
            };
            let w = match wait {
                Some(w) => w,
                None => DEFAULT_DISPENSE_WAIT,
            };
            ShellAction::Send(Event::Dispense(d, w))
        },
        Subcommand::Server(port) => ShellAction::Send(Event::StartServer(port)),
        Subcommand::Calibrate(sensor) => ShellAction::CalibrationUnavailable(sensor),
    }
}

/// The words of a command line as `shell_words::split` cuts them (quotes
/// removed, backslash escapes applied, comments dropped); `None` when a
/// quote is left open.
pub uninterp spec fn shell_split(line: Seq<char>) -> Option<Seq<Seq<char>>>;

/// The texts of a list of strings.
pub open spec fn texts(v: Seq<String>) -> Seq<Seq<char>> {
    v.map_values(|s: String| s@)
}

/// `shell_words::split`: the words of `line`, or `None` when its parser
/// reports an unmatched quote. Its result is named, not described.
#[verifier::external_body]
fn split_words(line: &str) -> (r: Option<Vec<String>>)
    ensures
        match r {
            Some(words) => shell_split(line@) == Some(texts(words@)),
            None => shell_split(line@) is None,
        },
{
    match shell_words::split(line) {
        Ok(words) => Some(words),
        Err(_) => None,
    }
}

/// The argument vector handed to the command parser for a shell line: a
/// program name `:` followed by the words of the line; `None` when a quote
/// is left open.
pub fn shell_argv(line: &str) -> (r: Option<Vec<String>>)
    ensures
        match r {
            Some(argv) => shell_split(line@) is Some && texts(argv@) == seq![seq![':']]
                + shell_split(line@)->0,
            None => shell_split(line@) is None,
        },
{
    match split_words(line) {
        Some(mut words) => {
            let program = ":";
            proof {
                reveal_strlit(":");
            }
            let mut argv: Vec<String> = Vec::new();
            let name = program.to_owned();
            assert(name@ =~= seq![':']);
            argv.push(name);
            let ghost first = argv@;
            let ghost w = words@;
            argv.append(&mut words);
            assert(argv@ == first + w);
            assert forall|i: int| 0 <= i < argv@.len() implies #[trigger] texts(argv@)[i] == (seq![
                seq![':'],
            ] + texts(w))[i] by {
                if i > 0 {
                    assert(argv@[i] == w[i - 1]);
                }
            }
            assert(texts(argv@) =~= seq![seq![':']] + texts(w));
            Some(argv)
        },
        None => None,
    }
}

} // verus!
