//! The status bar under the log: blank, a running command's latest message behind a spinning
//! throbber, or a progress bar with a message.

use crate::ui::StatusMode;
use vstd::prelude::*;

verus! {

/// The frames of the throbber, one every tenth of a second.
pub open spec fn throbber_frame(frame: int) -> char {
    if frame == 0 {
        '⠋'
    } else if frame == 1 {
        '⠙'
    } else if frame == 2 {
        '⠹'
    } else if frame == 3 {
        '⠸'
    } else if frame == 4 {
        '⠼'
    } else if frame == 5 {
        '⠴'
    } else if frame == 6 {
        '⠦'
    } else if frame == 7 {
        '⠧'
    } else if frame == 8 {
        '⠇'
    } else {
        '⠏'
    }
}

/// The throbber's character after a number of milliseconds: a frame every hundred
/// milliseconds, ten frames round.
pub open spec fn throbber_at(elapsed_ms: u128) -> char {
    throbber_frame(((elapsed_ms / 100) % 10) as int)
}

/// The throbber's character after a number of milliseconds.
pub fn throbber_char(elapsed_ms: u128) -> (r: char)
    ensures
        r == throbber_at(elapsed_ms),
{
    let frame = (elapsed_ms / 100) % 10;
    if frame == 0 {
        '⠋'
    } else if frame == 1 {
        '⠙'
    } else if frame == 2 {
        '⠹'
    } else if frame == 3 {
        '⠸'
    } else if frame == 4 {
        '⠼'
    } else if frame == 5 {
        '⠴'
    } else if frame == 6 {
        '⠦'
    } else if frame == 7 {
        '⠧'
    } else if frame == 8 {
        '⠇'
    } else {
        '⠏'
    }
}

/// The status bar's state; whether it is timing a command is kept here, the clock by the front
/// end.
pub struct StatusBar {
    mode: StatusMode,
    message: String,
    progress: u8,
    timing: bool,
}

/// The status bar's state, by value.
pub struct StatusBarView {
    pub mode: StatusMode,
    pub message: Seq<char>,
    pub progress: u8,
    pub timing: bool,
}

impl View for StatusBar {
    type V = StatusBarView;

    closed spec fn view(&self) -> StatusBarView {
        StatusBarView {
            mode: self.mode,
            message: self.message@,
            progress: self.progress,
            timing: self.timing,
        }
    }
}

/// The blank status bar.
pub open spec fn blank_bar() -> StatusBarView {
    StatusBarView { mode: StatusMode::Blank, message: Seq::empty(), progress: 0, timing: false }
}

/// What the status bar shows.
pub enum BarContent {
    /// An empty line.
    Blank,
    /// A line of text.
    Text(String),
    /// A progress bar at a percentage, with a label.
    Gauge(u8, String),
}

impl StatusBar {
    /// Create a new StatusBar
    pub fn new() -> (r: Self)
        ensures
            r@ == blank_bar(),
    {
        StatusBar { mode: StatusMode::Blank, message: String::new(), progress: 0, timing: false }
    }

    /// Set the mode to Blank (blank)
    pub fn set_blank(&mut self)
        ensures
            final(self)@ == blank_bar(),
    {
        self.mode = StatusMode::Blank;
        self.message = String::new();
        self.progress = 0;
        self.timing = false;
    }

    /// Set the mode to Messages with a command
    pub fn set_messages(&mut self, message: String)
        ensures
            final(self)@ == (StatusBarView {
                mode: StatusMode::Messages,
                message: message@,
                progress: 0,
                timing: true,
            }),
    {
        self.mode = StatusMode::Messages;
        self.message = message;
        self.progress = 0;
        self.timing = true;
    }

    /// Set the mode to Progress with initial message
    pub fn set_progress(&mut self, message: String)
        ensures
            final(self)@ == (StatusBarView {
                mode: StatusMode::Progress,
                message: message@,
                progress: 0,
                timing: true,
            }),
    {
        self.mode = StatusMode::Progress;
        self.message = message;
        self.progress = 0;
        self.timing = true;
    }

    /// Update message (for Messages mode)
    pub fn update_message(&mut self, message: String)
        ensures
            final(self)@ == if old(self)@.mode == StatusMode::Messages {
                StatusBarView { message: message@, ..old(self)@ }
            } else {
                old(self)@
            },
    {
        if self.mode == StatusMode::Messages {
            self.message = message;
        }
    }

    /// Update progress and message (for Progress mode)
    pub fn update_progress(&mut self, message: Option<String>, progress: u8)
        ensures
            final(self)@ == if old(self)@.mode == StatusMode::Progress {
                StatusBarView {
                    message: match message {
                        Some(m) => m@,
                        None => old(self)@.message,
                    },
                    progress: if progress < 100 {
                        progress
                    } else {
                        100
                    },
                    ..old(self)@
                }
            } else {
                old(self)@
            },
    {
        if self.mode == StatusMode::Progress {
            if let Some(msg) = message {
                self.message = msg;
            }
            self.progress = if progress < 100 {
                progress
            } else {
                100
            };
        }
    }

    /// What the bar shows once the command has been running a number of milliseconds (its
    /// throbber standing still where it is not timing one): nothing, the throbber and the
    /// message, or a progress bar labelled with them.
    pub fn content(&self, elapsed_ms: u128) -> (r: BarContent)
        ensures
            ({
                let label = seq![
                    if self@.timing {
                        throbber_at(elapsed_ms)
                    } else {
                        '⠋'
                    },
                    ' ',
                ] + self@.message;
                match self@.mode {
                    StatusMode::Blank => r is Blank,
                    StatusMode::Messages => r matches BarContent::Text(t) && t@ == label,
                    StatusMode::Progress => r matches BarContent::Gauge(p, t) && p == self@.progress
                        && t@ == label,
                }
            }),
    {
        if self.mode == StatusMode::Blank {
            return BarContent::Blank;
        }
        let throbber = if self.timing {
            throbber_char(elapsed_ms)
        } else {
            '⠋'
        };
        let mut label = String::new();
        crate::text::push_char(&mut label, throbber);
        crate::text::push_char(&mut label, ' ');
        label.append(self.message.as_str());
        proof {
            assert(label@ =~= seq![throbber, ' '] + self@.message);
        }
        if self.mode == StatusMode::Messages {
            BarContent::Text(label)
        } else {
            BarContent::Gauge(self.progress, label)
        }
    }

    /// The mode shown.
    pub fn mode(&self) -> (r: StatusMode)
        ensures
            r == self@.mode,
    {
        self.mode
    }

    /// The message shown.
    pub fn message(&self) -> (r: &str)
        ensures
            r@ == self@.message,
    {
        self.message.as_str()
    }

    /// The progress shown, in percent.
    pub fn progress(&self) -> (r: u8)
        ensures
            r == self@.progress,
    {
        self.progress
    }
}

} // verus!
