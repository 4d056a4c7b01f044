//! What the dashboard decides between two frames: when the run counts as
//! finished, when the workers are told to stop, and what is summarized.

use crate::worker::WorkerCommand;
use vstd::prelude::*;

verus! {

/// The columns that the frame's border takes.
pub const BORDER: u16 = 2;

/// The key `q`.
pub const KEY_QUIT: u8 = 0x71;

/// The key `Q`.
pub const KEY_QUIT_UPPER: u8 = 0x51;

/// The key `s`.
pub const KEY_STOP: u8 = 0x73;

/// The key `S`.
pub const KEY_STOP_UPPER: u8 = 0x53;

/// The error of a failed read, `std::io::Error`. Nothing is read from it: a
/// failed read counts as no key at all.
#[verifier::external_type_specification]
#[verifier::external_body]
pub struct ExIoError(std::io::Error);

/// What a key asks for.
#[derive(Debug, Copy, Clone, PartialEq, Eq, Structural)]
pub enum InputCommand {
    Stop,
    Quit,
    Nothing,
}

impl InputCommand {
    /// The command of a key that was read: `q` quits and `s` stops, in
    /// either case; any other key, and a failed read, asks for nothing.
    pub fn from_input(input: Result<u8, std::io::Error>) -> (command: InputCommand)
        ensures
            command == match input {
                Ok(key) => if key == KEY_QUIT || key == KEY_QUIT_UPPER {
                    InputCommand::Quit
                } else if key == KEY_STOP || key == KEY_STOP_UPPER {
                    InputCommand::Stop
                } else {
                    InputCommand::Nothing
                },
                Err(_) => InputCommand::Nothing,
            },
    {
        match input {
            Ok(key) => {
                if key == KEY_QUIT || key == KEY_QUIT_UPPER {
                    InputCommand::Quit
                } else if key == KEY_STOP || key == KEY_STOP_UPPER {
                    InputCommand::Stop
                } else {
                    InputCommand::Nothing
                }
            },
            Err(_) => InputCommand::Nothing,
        }
    }
}

/// Whether the run is still going.
#[derive(Debug, Copy, Clone, PartialEq, Eq, Structural)]
pub enum ViewStatus {
    Running,
    Finished,
}

/// What reading a key leads to.
#[derive(Debug, Copy, Clone, PartialEq, Eq, Structural)]
pub enum InputStep {
    /// Read the next key.
    Next,
    /// Read no more keys before the next frame.
    Halt,
    /// Leave the dashboard.
    Quit,
}

/// What is summarized for the next frame.
#[derive(Debug, Copy, Clone, PartialEq, Eq, Structural)]
pub enum Redraw {
    /// The run has just finished: close the channel, send this command to
    /// the workers, and summarize this many messages, the whole history.
    Conclude(WorkerCommand, usize),
    /// The run goes on: summarize the last messages, this many.
    Window(usize),
    /// The run finished earlier: keep the summary.
    Keep,
}

/// The dashboard's state from frame to frame.
#[derive(Debug, Copy, Clone, PartialEq, Eq, Structural)]
pub struct View {
    pub finished_workers: usize,
    pub current_status: ViewStatus,
    pub previous_status: ViewStatus,
}

impl View {
    /// The state before the first frame.
    pub fn new() -> (view: View)
        ensures
            view.finished_workers == 0,
            view.current_status == ViewStatus::Running,
            view.previous_status == ViewStatus::Running,
    {
        View {
            finished_workers: 0,
            current_status: ViewStatus::Running,
            previous_status: ViewStatus::Running,
        }
    }

    /// Takes note of a message: one that is its worker's last counts that
    /// worker as finished.
    pub fn receive(&mut self, finished: bool)
        requires
            old(self).finished_workers < usize::MAX,
        ensures
            final(self).finished_workers == old(self).finished_workers + if finished {
                1int
            } else {
                0int
            },
            final(self).current_status == old(self).current_status,
            final(self).previous_status == old(self).previous_status,
    {
        if finished {
            self.finished_workers = self.finished_workers + 1;
        }
    }

    /// Once the channel is read empty: the run is finished where all
    /// `concurrency` workers are.
    pub fn drained(&mut self, concurrency: usize)
        ensures
            final(self).finished_workers == old(self).finished_workers,
            final(self).previous_status == old(self).previous_status,
            final(self).current_status == if old(self).finished_workers == concurrency {
                ViewStatus::Finished
            } else {
                old(self).current_status
            },
    {
        if self.finished_workers == concurrency {
            self.current_status = ViewStatus::Finished;
        }
    }

    /// Follows a command from the keyboard: a stop finishes the run and
    /// ends the reading of keys for this frame, a quit leaves the dashboard.
    pub fn input(&mut self, command: InputCommand) -> (step: InputStep)
        ensures
            final(self).finished_workers == old(self).finished_workers,
            final(self).previous_status == old(self).previous_status,
            final(self).current_status == if command == InputCommand::Stop {
                ViewStatus::Finished
            } else {
                old(self).current_status
            },
            step == match command {
                InputCommand::Stop => InputStep::Halt,
                InputCommand::Quit => InputStep::Quit,
                InputCommand::Nothing => InputStep::Next,
            },
    {
        match command {
            InputCommand::Stop => {
                self.current_status = ViewStatus::Finished;
                InputStep::Halt
            },
            InputCommand::Quit => InputStep::Quit,
            InputCommand::Nothing => InputStep::Next,
        }
    }

    /// What the next frame summarizes, given the number of messages so far
    /// and the width of the terminal.
    pub fn plan(&self, history: usize, width: u16) -> (redraw: Redraw)
        requires
            self.current_status == ViewStatus::Running ==> width >= BORDER,
        ensures
            redraw == match (self.current_status, self.previous_status) {
                (ViewStatus::Finished, ViewStatus::Running) => Redraw::Conclude(
                    WorkerCommand::Stop,
                    history,
                ),
                (ViewStatus::Finished, ViewStatus::Finished) => Redraw::Keep,
                (ViewStatus::Running, _) => Redraw::Window((width - BORDER) as usize),
            },
    {
        match self.current_status {
            ViewStatus::Finished => match self.previous_status {
                ViewStatus::Running => Redraw::Conclude(WorkerCommand::Stop, history),
                ViewStatus::Finished => Redraw::Keep,
            },
            ViewStatus::Running => {
                let columns: u16 = width - BORDER;
                Redraw::Window(columns as usize)
            },
        }
    }

    /// Once the frame is drawn: the status becomes the previous one.
    pub fn shown(&mut self)
        ensures
            final(self).finished_workers == old(self).finished_workers,
            final(self).current_status == old(self).current_status,
            final(self).previous_status == old(self).current_status,
    {
        self.previous_status = self.current_status;
    }
}

} // verus!
