//! The debugger itself: what it remembers and how it answers each event.
use crate::debugger::command::{
    Action, ActionView, CommandView, DebuggerCommand, Event, EventView, Status, StatusView,
};
use crate::text::address::{address_of, parse_address};
use crate::text::decimal::{decimal, decimal_text, signed_decimal, signed_decimal_text};
use vstd::prelude::*;

verus! {

/// Which command let the inferior go on.
#[derive(Clone, Copy)]
pub enum ResumedBy {
    Run,
    Cont,
}

/// What the debugger is waiting for.
#[derive(Clone, Copy)]
pub enum Phase {
    /// The next command.
    Ready,
    /// The outcome of starting the inferior.
    Spawning,
    /// The inferior, until it halts.
    Resumed(ResumedBy),
    /// The source line at which the inferior stopped.
    Locating,
    /// Nothing: the session is over.
    Finished,
}

/// What can go wrong with the debug data of the target.
pub enum DwarfError {
    ErrorOpeningFile,
    /// The data are malformed, in the way this text describes.
    DwarfFormatError(String),
}

/// Why a debugger could not be started.
pub enum StartupError {
    /// The program ends with this line and this exit code.
    Exit { message: String, code: i32 },
    /// There is no home directory to keep the command history in.
    NoHome,
}

/// A debugger for one target program.
pub struct Debugger {
    target: String,
    history_path: String,
    inferior: bool,
    breakpoints: Vec<usize>,
    phase: Phase,
}

/// The value of a [`Debugger`].
pub struct DebuggerView {
    /// The program to be debugged.
    pub target: Seq<char>,
    /// Where the command history is kept.
    pub history_path: Seq<char>,
    /// Whether there is an inferior.
    pub inferior: bool,
    /// The breakpoints in the order in which they were set.
    pub breakpoints: Seq<usize>,
    /// What the debugger is waiting for.
    pub phase: Phase,
}

impl View for Debugger {
    type V = DebuggerView;

    closed spec fn view(&self) -> DebuggerView {
        DebuggerView {
            target: self.target@,
            history_path: self.history_path@,
            inferior: self.inferior,
            breakpoints: self.breakpoints@,
            phase: self.phase,
        }
    }
}

impl DebuggerView {
    /// There is an inferior while one is running or being located, and there is none while one is
    /// being started and after the end.
    pub open spec fn wf(self) -> bool {
        match self.phase {
            Phase::Ready => true,
            Phase::Spawning => !self.inferior,
            Phase::Resumed(_) => self.inferior,
            Phase::Locating => self.inferior,
            Phase::Finished => !self.inferior,
        }
    }

    /// Whether `event` is news of the kind that the debugger is waiting for.
    pub open spec fn expects(self, event: EventView) -> bool {
        match self.phase {
            Phase::Ready => event is Command,
            Phase::Spawning => event is Spawned,
            Phase::Resumed(_) => event is Halted,
            Phase::Locating => event is Located,
            Phase::Finished => false,
        }
    }

    /// The debugger with or without an inferior, waiting for something else.
    pub open spec fn turned(self, inferior: bool, phase: Phase) -> DebuggerView {
        DebuggerView { inferior, phase, ..self }
    }

    /// What a command leads to.
    pub open spec fn on_command(self, command: CommandView) -> (DebuggerView, Seq<ActionView>) {
        let kill = if self.inferior {
            seq![ActionView::Kill]
        } else {
            seq![]
        };
        match command {
            CommandView::Run(args) => (
                self.turned(false, Phase::Spawning),
                kill.push(
                    ActionView::Spawn {
                        target: self.target,
                        args,
                        breakpoints: self.breakpoints,
                    },
                ),
            ),
            CommandView::Cont => if self.inferior {
                (self.turned(true, Phase::Resumed(ResumedBy::Cont)), seq![ActionView::Resume])
            } else {
                (
                    self,
                    say("No process running! Cannot execute continue instruction."@),
                )
            },
            CommandView::Backtrace => if self.inferior {
                (self, seq![ActionView::Backtrace, ActionView::Prompt])
            } else {
                (self, seq![ActionView::Prompt])
            },
            CommandView::Breakpoint(text) => match address_of(text) {
                Some(address) => {
                    let breakpoints = self.breakpoints.push(address);
                    (
                        DebuggerView { breakpoints, ..self },
                        say(
                            "Set breakpoint "@ + decimal(breakpoints.len()) + " at "@ + text,
                        ),
                    )
                },
                None => (self, seq![ActionView::Prompt]),
            },
            CommandView::Quit => (self.turned(false, Phase::Finished), kill.push(ActionView::Return)),
        }
    }

    /// What the outcome of starting the inferior leads to.
    pub open spec fn on_spawned(self, ok: bool) -> (DebuggerView, Seq<ActionView>) {
        if ok {
            (self.turned(true, Phase::Resumed(ResumedBy::Run)), seq![ActionView::Resume])
        } else {
            (self.turned(false, Phase::Ready), say("Error starting subprocess"@))
        }
    }

    /// What the halt of an inferior leads to.
    pub open spec fn on_halted(self, by: ResumedBy, status: StatusView) -> (
        DebuggerView,
        Seq<ActionView>,
    ) {
        match (by, status) {
            (ResumedBy::Run, StatusView::Stopped(signal, rip)) => (
                self.turned(true, Phase::Locating),
                seq![
                    ActionView::Print("Child stopped. (Signal "@ + signal + ")"@),
                    ActionView::Locate(rip),
                ],
            ),
            (ResumedBy::Run, StatusView::Exited(code)) => (
                self.turned(false, Phase::Ready),
                say_ended("Child exited. (Exit code "@ + signed_decimal(code as int) + ")"@),
            ),
            (ResumedBy::Run, StatusView::Signaled(signal)) => (
                self.turned(false, Phase::Ready),
                say_ended("Child exited. (Signal "@ + signal + ")"@),
            ),
            (ResumedBy::Cont, StatusView::Stopped(signal, rip)) => (
                self.turned(true, Phase::Ready),
                say("Subprocess stopped at signal "@ + signal),
            ),
            (ResumedBy::Cont, StatusView::Exited(code)) => (
                self.turned(false, Phase::Ready),
                say_ended("Subprocess exited with exit code "@ + signed_decimal(code as int)),
            ),
            (ResumedBy::Cont, StatusView::Signaled(signal)) => (
                self.turned(false, Phase::Ready),
                say_ended("Subprocess exited at singal "@ + signal),
            ),
        }
    }

    /// What the outcome of a line lookup leads to.
    pub open spec fn on_located(self, line: Option<Seq<char>>) -> (DebuggerView, Seq<ActionView>) {
        (
            self.turned(true, Phase::Ready),
            match line {
                Some(line) => say("Stopped at "@ + line),
                None => seq![ActionView::Prompt],
            },
        )
    }

    /// What an event that the debugger expects leads to: the debugger after it, and the actions
    /// that it asks for.
    pub open spec fn step(self, event: EventView) -> (DebuggerView, Seq<ActionView>) {
        match (self.phase, event) {
            (Phase::Ready, EventView::Command(command)) => self.on_command(command),
            (Phase::Spawning, EventView::Spawned(ok)) => self.on_spawned(ok),
            (Phase::Resumed(by), EventView::Halted(status)) => self.on_halted(by, status),
            (Phase::Locating, EventView::Located(line)) => self.on_located(line),
            _ => (self, seq![]),
        }
    }
}

/// Print one line, then get the next command.
pub open spec fn say(line: Seq<char>) -> Seq<ActionView> {
    seq![ActionView::Print(line), ActionView::Prompt]
}

/// Print one line about an inferior that has ended, let go of it, then get the next command.
pub open spec fn say_ended(line: Seq<char>) -> Seq<ActionView> {
    seq![ActionView::Print(line), ActionView::Forget, ActionView::Prompt]
}

/// Three pieces of text as one.
fn joined3(a: &str, b: &str, c: &str) -> (text: String)
    ensures
        text@ == a@ + b@ + c@,
{
    let mut text = a.to_owned();
    text.append(b);
    text.append(c);
    text
}

/// The actions that print one line and then get the next command.
fn say_line(line: String) -> (actions: Vec<Action>)
    ensures
        actions.deep_view() == say(line@),
{
    let actions = vec![Action::Print(line), Action::Prompt];
    assert(actions.deep_view() =~= say(line@));
    actions
}

/// The actions that print one line about an inferior that has ended, let go of it, and then get the
/// next command.
fn say_ended_line(line: String) -> (actions: Vec<Action>)
    ensures
        actions.deep_view() == say_ended(line@),
{
    let actions = vec![Action::Print(line), Action::Forget, Action::Prompt];
    assert(actions.deep_view() =~= say_ended(line@));
    actions
}

/// One action.
fn just(action: Action) -> (actions: Vec<Action>)
    ensures
        actions.deep_view() == seq![action@],
{
    let actions = vec![action];
    assert(actions.deep_view() =~= seq![action@]);
    actions
}

impl Debugger {
    /// Starts a debugger for `target`, given how loading its debug data went and the home
    /// directory of the user, if there is one.
    pub fn new(target: &str, debug_data: Result<(), DwarfError>, home: Option<String>) -> (started:
        Result<Debugger, StartupError>)
        ensures
            match debug_data {
                Err(DwarfError::ErrorOpeningFile) => {
                    &&& started matches Err(StartupError::Exit { message, code })
                    &&& message@ == "Could not open file "@ + target@
                    &&& code == 1
                },
                Err(DwarfError::DwarfFormatError(err)) => {
                    &&& started matches Err(StartupError::Exit { message, code })
                    &&& message@ == "Could not debugging symbols from "@ + target@ + ": "@ + err@
                    &&& code == 1
                },
                Ok(_) => match home {
                    None => started matches Err(StartupError::NoHome),
                    Some(home) => {
                        &&& started matches Ok(debugger)
                        &&& debugger@ == (DebuggerView {
                            target: target@,
                            history_path: home@ + "/.deet_history"@,
                            inferior: false,
                            breakpoints: Seq::empty(),
                            phase: Phase::Ready,
                        })
                        &&& debugger@.wf()
                    },
                },
            },
    {
        match debug_data {
            Err(DwarfError::ErrorOpeningFile) => {
                let mut message = "Could not open file ".to_owned();
                message.append(target);
                Err(StartupError::Exit { message, code: 1 })
            },
            Err(DwarfError::DwarfFormatError(err)) => {
                let mut message = joined3("Could not debugging symbols from ", target, ": ");
                message.append(err.as_str());
                Err(StartupError::Exit { message, code: 1 })
            },
            Ok(_) => match home {
                None => Err(StartupError::NoHome),
                Some(home) => {
                    let mut history_path = home;
                    history_path.append("/.deet_history");
                    Ok(
                        Debugger {
                            target: target.to_owned(),
                            history_path,
                            inferior: false,
                            breakpoints: Vec::new(),
                            phase: Phase::Ready,
                        },
                    )
                },
            },
        }
    }

    /// Whether `event` is what the debugger is waiting for.
    pub fn expects(&self, event: &Event) -> (expected: bool)
        ensures
            expected == self@.expects(event@),
    {
        match (self.phase, event) {
            (Phase::Ready, Event::Command(_)) => true,
            (Phase::Spawning, Event::Spawned(_)) => true,
            (Phase::Resumed(_), Event::Halted(_)) => true,
            (Phase::Locating, Event::Located(_)) => true,
            _ => false,
        }
    }

    /// Whether there is an inferior.
    pub fn has_inferior(&self) -> (has: bool)
        ensures
            has == self@.inferior,
    {
        self.inferior
    }

    /// The breakpoints in the order in which they were set.
    pub fn breakpoints(&self) -> (breakpoints: &Vec<usize>)
        ensures
            breakpoints@ == self@.breakpoints,
    {
        &self.breakpoints
    }

    /// Where the command history is kept.
    pub fn history_path(&self) -> (path: &str)
        ensures
            path@ == self@.history_path,
    {
        self.history_path.as_str()
    }

    /// Forgets the inferior; the action that kills it, if there is one.
    fn kill_inferior(&mut self) -> (actions: Vec<Action>)
        ensures
            final(self)@ == old(self)@.turned(false, old(self)@.phase),
            actions.deep_view() == (if old(self)@.inferior {
                seq![ActionView::Kill]
            } else {
                seq![]
            }),
    {
        let mut actions: Vec<Action> = Vec::new();
        if self.inferior {
            actions.push(Action::Kill);
            self.inferior = false;
        }
        assert(actions.deep_view() =~= if old(self)@.inferior {
            seq![ActionView::Kill]
        } else {
            seq![]
        });
        actions
    }

    /// Answers a command.
    fn on_command(&mut self, command: DebuggerCommand) -> (actions: Vec<Action>)
        requires
            old(self)@.phase is Ready,
        ensures
            (final(self)@, actions.deep_view()) == old(self)@.on_command(command@),
    {
        match command {
            DebuggerCommand::Run(args) => {
                let mut actions = self.kill_inferior();
                let ghost kill = actions.deep_view();
                let spawn = Action::Spawn {
                    target: self.target.clone(),
                    args,
                    breakpoints: copied(&self.breakpoints),
                };
                actions.push(spawn);
                assert(actions.deep_view() =~= kill.push(spawn@));
                self.phase = Phase::Spawning;
                actions
            },
            DebuggerCommand::Cont => {
                if self.inferior {
                    self.phase = Phase::Resumed(ResumedBy::Cont);
                    just(Action::Resume)
                } else {
                    say_line("No process running! Cannot execute continue instruction.".to_owned())
                }
            },
            DebuggerCommand::Backtrace => {
                if self.inferior {
                    let actions = vec![Action::Backtrace, Action::Prompt];
                    assert(actions.deep_view() =~= seq![ActionView::Backtrace, ActionView::Prompt]);
                    actions
                } else {
                    just(Action::Prompt)
                }
            },
            DebuggerCommand::Breakpoint(text) => {
                match parse_address(text.as_str()) {
                    Some(address) => {
                        self.breakpoints.push(address);
                        let number: u64 = self.breakpoints.len() as u64;
                        let mut line = joined3(
                            "Set breakpoint ",
                            decimal_text(number).as_str(),
                            " at ",
                        );
                        line.append(text.as_str());
                        say_line(line)
                    },
                    None => just(Action::Prompt),
                }
            },
            DebuggerCommand::Quit => {
                let mut actions = self.kill_inferior();
                let ghost kill = actions.deep_view();
                actions.push(Action::Return);
                assert(actions.deep_view() =~= kill.push(ActionView::Return));
                self.phase = Phase::Finished;
                actions
            },
        }
    }

    /// Answers the outcome of starting the inferior.
    fn on_spawned(&mut self, ok: bool) -> (actions: Vec<Action>)
        ensures
            (final(self)@, actions.deep_view()) == old(self)@.on_spawned(ok),
    {
        self.inferior = ok;
        if ok {
            self.phase = Phase::Resumed(ResumedBy::Run);
            just(Action::Resume)
        } else {
            self.phase = Phase::Ready;
            say_line("Error starting subprocess".to_owned())
        }
    }

    /// Answers the halt of the inferior.
    fn on_halted(&mut self, by: ResumedBy, status: Status) -> (actions: Vec<Action>)
        requires
            old(self)@.inferior,
        ensures
            (final(self)@, actions.deep_view()) == old(self)@.on_halted(by, status@),
    {
        match (by, status) {
            (ResumedBy::Run, Status::Stopped(signal, rip)) => {
                self.phase = Phase::Locating;
                let line = joined3("Child stopped. (Signal ", signal.as_str(), ")");
                let actions = vec![Action::Print(line), Action::Locate(rip)];
                assert(actions.deep_view() =~= seq![
                    ActionView::Print(line@),
                    ActionView::Locate(rip),
                ]);
                actions
            },
            (ResumedBy::Run, Status::Exited(code)) => {
                self.inferior = false;
                self.phase = Phase::Ready;
                say_ended_line(
                    joined3("Child exited. (Exit code ", signed_decimal_text(code).as_str(), ")"),
                )
            },
            (ResumedBy::Run, Status::Signaled(signal)) => {
                self.inferior = false;
                self.phase = Phase::Ready;
                say_ended_line(joined3("Child exited. (Signal ", signal.as_str(), ")"))
            },
            (ResumedBy::Cont, Status::Stopped(signal, _)) => {
                self.phase = Phase::Ready;
                let mut line = "Subprocess stopped at signal ".to_owned();
                line.append(signal.as_str());
                say_line(line)
            },
            (ResumedBy::Cont, Status::Exited(code)) => {
                self.inferior = false;
                self.phase = Phase::Ready;
                let mut line = "Subprocess exited with exit code ".to_owned();
                line.append(signed_decimal_text(code).as_str());
                say_ended_line(line)
            },
            (ResumedBy::Cont, Status::Signaled(signal)) => {
                self.inferior = false;
                self.phase = Phase::Ready;
                let mut line = "Subprocess exited at singal ".to_owned();
                line.append(signal.as_str());
                say_ended_line(line)
            },
        }
    }

    /// Answers the outcome of a line lookup.
    fn on_located(&mut self, line: Option<String>) -> (actions: Vec<Action>)
        requires
            old(self)@.inferior,
        ensures
            (final(self)@, actions.deep_view()) == old(self)@.on_located(
                match line {
                    Some(text) => Some(text@),
                    None => None,
                },
            ),
    {
        self.phase = Phase::Ready;
        match line {
            Some(text) => {
                let mut line = "Stopped at ".to_owned();
                line.append(text.as_str());
                say_line(line)
            },
            None => just(Action::Prompt),
        }
    }

    /// Answers an event: what the debugger asks for next, in order.
    pub fn run(&mut self, event: Event) -> (actions: Vec<Action>)
        requires
            old(self)@.wf(),
            old(self)@.expects(event@),
        ensures
            (final(self)@, actions.deep_view()) == old(self)@.step(event@),
            final(self)@.wf(),
    {
        match event {
            Event::Command(command) => self.on_command(command),
            Event::Spawned(ok) => self.on_spawned(ok),
            Event::Halted(status) => {
                let by = match self.phase {
                    Phase::Resumed(by) => by,
                    _ => ResumedBy::Run,
                };
                self.on_halted(by, status)
            },
            Event::Located(line) => self.on_located(line),
        }
    }
}

/// A copy of a list of addresses.
fn copied(addresses: &Vec<usize>) -> (copy: Vec<usize>)
    ensures
        copy@ == addresses@,
{
    let mut copy: Vec<usize> = Vec::new();
    let mut i: usize = 0;
    while i < addresses.len()
        invariant
            i <= addresses.len(),
            copy@ == addresses@.take(i as int),
        decreases addresses.len() - i,
    {
        copy.push(addresses[i]);
        i = i + 1;
    }
    copy
}

} // verus!
