//! Commands of the user, news from the inferior, and the actions that they lead to.
use vstd::prelude::*;

verus! {

/// A command of the user.
pub enum DebuggerCommand {
    /// Start the target afresh with these arguments.
    Run(Vec<String>),
    /// Let the stopped inferior go on.
    Cont,
    /// Show the call stack of the inferior.
    Backtrace,
    /// Set a breakpoint at the address that this text spells.
    Breakpoint(String),
    /// Leave the debugger.
    Quit,
}

/// The value of a [`DebuggerCommand`].
pub enum CommandView {
    Run(Seq<Seq<char>>),
    Cont,
    Backtrace,
    Breakpoint(Seq<char>),
    Quit,
}

impl View for DebuggerCommand {
    type V = CommandView;

    open spec fn view(&self) -> CommandView {
        match self {
            DebuggerCommand::Run(args) => CommandView::Run(args.deep_view()),
            DebuggerCommand::Cont => CommandView::Cont,
            DebuggerCommand::Backtrace => CommandView::Backtrace,
            DebuggerCommand::Breakpoint(text) => CommandView::Breakpoint(text@),
            DebuggerCommand::Quit => CommandView::Quit,
        }
    }
}

/// What the inferior did after it was let go on. Signals are given by name.
pub enum Status {
    /// It stopped at a signal, with its instruction pointer at this address.
    Stopped(String, usize),
    /// It exited with this code.
    Exited(i32),
    /// A signal ended it.
    Signaled(String),
}

/// The value of a [`Status`].
pub enum StatusView {
    Stopped(Seq<char>, usize),
    Exited(i32),
    Signaled(Seq<char>),
}

impl View for Status {
    type V = StatusView;

    open spec fn view(&self) -> StatusView {
        match self {
            Status::Stopped(signal, rip) => StatusView::Stopped(signal@, *rip),
            Status::Exited(code) => StatusView::Exited(*code),
            Status::Signaled(signal) => StatusView::Signaled(signal@),
        }
    }
}

/// What the debugger is told.
pub enum Event {
    /// The user gave a command.
    Command(DebuggerCommand),
    /// The attempt to start the inferior succeeded (`true`) or failed.
    Spawned(bool),
    /// The inferior, let go on, came to this.
    Halted(Status),
    /// The source line of an address was looked up; `None` if the debug data know none.
    Located(Option<String>),
}

/// The value of an [`Event`].
pub enum EventView {
    Command(CommandView),
    Spawned(bool),
    Halted(StatusView),
    Located(Option<Seq<char>>),
}

impl View for Event {
    type V = EventView;

    open spec fn view(&self) -> EventView {
        match self {
            Event::Command(command) => EventView::Command(command@),
            Event::Spawned(ok) => EventView::Spawned(*ok),
            Event::Halted(status) => EventView::Halted(status@),
            Event::Located(None) => EventView::Located(None),
            Event::Located(Some(line)) => EventView::Located(Some(line@)),
        }
    }
}

/// What the debugger asks for, to be done in the order given.
pub enum Action {
    /// Kill the inferior and let go of it.
    Kill,
    /// Let go of the inferior, which has ended.
    Forget,
    /// Start `target` with `args`, stopped, with `breakpoints` set, and report `Spawned`.
    Spawn { target: String, args: Vec<String>, breakpoints: Vec<usize> },
    /// Let the inferior go on until it halts, and report `Halted`.
    Resume,
    /// Look up the source line of this address, and report `Located`.
    Locate(usize),
    /// Print the call stack of the inferior.
    Backtrace,
    /// Print this line.
    Print(String),
    /// Get the next command, and report it.
    Prompt,
    /// End the session.
    Return,
}

/// The value of an [`Action`].
pub enum ActionView {
    Kill,
    Forget,
    Spawn { target: Seq<char>, args: Seq<Seq<char>>, breakpoints: Seq<usize> },
    Resume,
    Locate(usize),
    Backtrace,
    Print(Seq<char>),
    Prompt,
    Return,
}

impl View for Action {
    type V = ActionView;

    open spec fn view(&self) -> ActionView {
        match self {
            Action::Kill => ActionView::Kill,
            Action::Forget => ActionView::Forget,
            Action::Spawn { target, args, breakpoints } => ActionView::Spawn {
                target: target@,
                args: args.deep_view(),
                breakpoints: breakpoints@,
            },
            Action::Resume => ActionView::Resume,
            Action::Locate(address) => ActionView::Locate(*address),
            Action::Backtrace => ActionView::Backtrace,
            Action::Print(line) => ActionView::Print(line@),
            Action::Prompt => ActionView::Prompt,
            Action::Return => ActionView::Return,
        }
    }
}

impl DeepView for Action {
    type V = ActionView;

    open spec fn deep_view(&self) -> ActionView {
        self@
    }
}

} // verus!
