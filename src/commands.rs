//! The verbs the agent sends, and their text on the wire.
use vstd::prelude::*;
use vstd::string::*;

use crate::inventory::{resource_name, Resource};

verus! {

/// A cardinal facing on the map; `Down` is towards growing `y`.
#[derive(Debug, Clone, Copy, PartialEq, Eq, Hash, Structural)]
pub enum Direction {
    Up,
    Right,
    Down,
    Left,
}

/// One command of the protocol.
#[derive(Debug, Clone, PartialEq, Eq, Hash)]
pub enum Command {
    Forward,
    Right,
    Left,
    Look,
    Inventory,
    Broadcast(String),
    ConnectNbr,
    Fork,
    Eject,
    Take(Resource),
    /// Sets a carried resource down on the tile (`Set` on the wire).
    Place(Resource),
    Incantation,
}

/// The line that `c` is sent as, without its newline.
pub open spec fn command_text(c: Command) -> Seq<char> {
    match c {
        Command::Forward => "Forward"@,
        Command::Right => "Right"@,
        Command::Left => "Left"@,
        Command::Look => "Look"@,
        Command::Inventory => "Inventory"@,
        Command::Broadcast(t) => "Broadcast "@ + t@,
        Command::ConnectNbr => "Connect_nbr"@,
        Command::Fork => "Fork"@,
        Command::Eject => "Eject"@,
        Command::Take(r) => "Take "@ + resource_name(r),
        Command::Place(r) => "Set "@ + resource_name(r),
        Command::Incantation => "Incantation"@,
    }
}

/// The time units that the server spends on `c`.
pub open spec fn command_ticks(c: Command) -> u64 {
    match c {
        Command::Forward | Command::Right | Command::Left | Command::Look | Command::Broadcast(_)
        | Command::Eject | Command::Take(_) | Command::Place(_) => 7,
        Command::Inventory => 1,
        Command::Fork => 42,
        Command::Incantation => 300,
        Command::ConnectNbr => 0,
    }
}

/// The duration that `Duration::from_nanos` gives for `n` nanoseconds.
pub uninterp spec fn nanos_duration(n: u64) -> std::time::Duration;

/// Relies on `Duration::from_nanos`: the duration of `n` nanoseconds.
#[verifier::external_body]
fn duration_from_nanos(n: u64) -> (r: std::time::Duration)
    ensures
        r == nanos_duration(n),
{
    std::time::Duration::from_nanos(n)
}

impl Command {
    pub fn to_string(&self) -> (r: String)
        ensures
            r@ == command_text(*self),
    {
        match self {
            Command::Forward => String::from_str("Forward"),
            Command::Right => String::from_str("Right"),
            Command::Left => String::from_str("Left"),
            Command::Look => String::from_str("Look"),
            Command::Inventory => String::from_str("Inventory"),
            Command::Broadcast(text) => String::from_str("Broadcast ").concat(text.as_str()),
            Command::ConnectNbr => String::from_str("Connect_nbr"),
            Command::Fork => String::from_str("Fork"),
            Command::Eject => String::from_str("Eject"),
            Command::Take(resource) => {
                let name = resource.to_string();
                String::from_str("Take ").concat(name.as_str())
            },
            Command::Place(resource) => {
                let name = resource.to_string();
                String::from_str("Set ").concat(name.as_str())
            },
            Command::Incantation => String::from_str("Incantation"),
        }
    }

    /// The time units that the server spends on this command.
    pub fn ticks(&self) -> (r: u64)
        ensures
            r == command_ticks(*self),
    {
        match self {
            Command::Forward | Command::Right | Command::Left | Command::Look
            | Command::Broadcast(_) | Command::Eject | Command::Take(_) | Command::Place(_) => 7,
            Command::Inventory => 1,
            Command::Fork => 42,
            Command::Incantation => 300,
            Command::ConnectNbr => 0,
        }
    }

    /// The wall-clock time of this command at `freq` time units per second,
    /// rounded down to whole nanoseconds.
    pub fn get_duration(&self, freq: u32) -> (r: std::time::Duration)
        requires
            freq > 0,
        ensures
            r == nanos_duration((command_ticks(*self) * 1_000_000_000 / (freq as int)) as u64),
    {
        let nanos: u64 = self.ticks() * 1_000_000_000 / freq as u64;
        duration_from_nanos(nanos)
    }
}

} // verus!
