//! The application state a host interface drives: a single flag that turns
//! ellipsizing on or off.
use vstd::prelude::*;

verus! {

/// What the host interface can ask of the application state.
#[derive(Debug, Clone)]
pub enum Message {
    ToggleEllipsize(bool),
}

/// The application state: whether overflowing text is ellipsized.
#[derive(Debug, Clone, Copy, PartialEq, Eq, Structural)]
pub struct App {
    pub ellipsize: bool,
}

impl Default for App {
    /// Starts with ellipsizing switched on.
    fn default() -> (app: App)
        ensures
            app.ellipsize,
    {
        App { ellipsize: true }
    }
}

impl App {
    /// Applies a message: toggling sets the flag to the chosen value.
    pub fn update(&mut self, message: Message)
        ensures
            message matches Message::ToggleEllipsize(choice) ==> final(self).ellipsize
                == choice,
    {
        match message {
            Message::ToggleEllipsize(choice) => {
                self.ellipsize = choice;
            },
        }
    }
}

} // verus!
