//! What each piece of news leads to, whatever came before it.
use crate::debugger::command::{
    Action, ActionView, CommandView, DebuggerCommand, Event, EventView, Status, StatusView,
};
use crate::debugger::prompt::{PromptAction, PromptActionView, PromptEvent, PromptEventView};
use crate::debugger::session::{DebuggerView, Phase, ResumedBy};
use crate::text::address::address_of;
use crate::text::decimal::{decimal, signed_decimal};
use crate::text::words::{is_space, words};
use vstd::prelude::*;

verus! {

/// Each phase waits for news of its own kind, whatever the news is; a finished session waits for
/// none.
pub proof fn law_a_debugger_takes_any_news_of_its_kind(debugger: DebuggerView, event: EventView)
    ensures
        debugger.expects(event) <==> match event {
            EventView::Command(_) => debugger.phase is Ready,
            EventView::Spawned(_) => debugger.phase is Spawning,
            EventView::Halted(_) => debugger.phase is Resumed,
            EventView::Located(_) => debugger.phase is Locating,
        },
{
}

/// The command to run starts the target exactly once, with the arguments of the command, all of them
/// and unchanged, and with every breakpoint, whatever breakpoints there are and whether or not there
/// is an inferior. All that comes before is the end of the inferior, if there is one.
pub proof fn law_run_starts_the_target_with_its_arguments(
    debugger: DebuggerView,
    args: Seq<Seq<char>>,
)
    requires
        debugger.phase is Ready,
    ensures
        ({
            let (next, actions) = debugger.step(EventView::Command(CommandView::Run(args)));
            &&& actions.len() > 0
            &&& actions.last() == (ActionView::Spawn {
                target: debugger.target,
                args,
                breakpoints: debugger.breakpoints,
            })
            &&& actions.drop_last() == if debugger.inferior {
                seq![ActionView::Kill]
            } else {
                seq![]
            }
            &&& next == (DebuggerView { inferior: false, phase: Phase::Spawning, ..debugger })
        }),
{
    let actions = debugger.step(EventView::Command(CommandView::Run(args))).1;
    assert(actions.drop_last() =~= if debugger.inferior {
        seq![ActionView::Kill]
    } else {
        seq![]
    });
}

/// Nothing but the command to run starts anything, and what it starts has the command's arguments.
pub proof fn law_only_run_starts_the_target(debugger: DebuggerView, event: EventView, i: int)
    requires
        debugger.expects(event),
        0 <= i < debugger.step(event).1.len(),
    ensures
        debugger.step(event).1[i] matches ActionView::Spawn { target, args, breakpoints } ==> {
            &&& event == EventView::Command(CommandView::Run(args))
            &&& target == debugger.target
            &&& breakpoints == debugger.breakpoints
            &&& i == debugger.step(event).1.len() - 1
        },
{
}

/// The command to continue lets the inferior go on, and does nothing else; without an inferior it is
/// refused with a line that says so.
pub proof fn law_cont_lets_the_inferior_go_on(debugger: DebuggerView)
    requires
        debugger.phase is Ready,
    ensures
        ({
            let (next, actions) = debugger.step(EventView::Command(CommandView::Cont));
            if debugger.inferior {
                &&& actions == seq![ActionView::Resume]
                &&& next == (DebuggerView { phase: Phase::Resumed(ResumedBy::Cont), ..debugger })
            } else {
                &&& actions == seq![
                    ActionView::Print(
                        "No process running! Cannot execute continue instruction."@,
                    ),
                    ActionView::Prompt,
                ]
                &&& next == debugger
            }
        }),
{
}

/// The command for the call stack changes nothing, and shows the call stack exactly if there is an
/// inferior.
pub proof fn law_a_backtrace_changes_nothing(debugger: DebuggerView)
    requires
        debugger.phase is Ready,
    ensures
        ({
            let (next, actions) = debugger.step(EventView::Command(CommandView::Backtrace));
            &&& next == debugger
            &&& actions.contains(ActionView::Backtrace) <==> debugger.inferior
            &&& actions.last() == ActionView::Prompt
            &&& actions.len() == if debugger.inferior {
                2int
            } else {
                1
            }
        }),
{
    let actions = debugger.step(EventView::Command(CommandView::Backtrace)).1;
    assert(actions.contains(actions[0]));
}

/// The command to set a breakpoint adds the address that its text spells behind all the breakpoints
/// there are, and says so with the number of the new one, counted from 1, and the text as it was
/// typed. Text that spells no address does nothing.
pub proof fn law_a_breakpoint_is_added_behind_the_others(debugger: DebuggerView, text: Seq<char>)
    requires
        debugger.phase is Ready,
    ensures
        ({
            let (next, actions) = debugger.step(EventView::Command(CommandView::Breakpoint(text)));
            match address_of(text) {
                Some(address) => {
                    &&& next.breakpoints == debugger.breakpoints.push(address)
                    &&& next == (DebuggerView { breakpoints: next.breakpoints, ..debugger })
                    &&& actions == seq![
                        ActionView::Print(
                            "Set breakpoint "@ + decimal((debugger.breakpoints.len() + 1) as nat)
                                + " at "@ + text,
                        ),
                        ActionView::Prompt,
                    ]
                },
                None => next == debugger && actions == seq![ActionView::Prompt],
            }
        }),
{
}

/// The command to quit ends the session, and the inferior with it if there is one.
pub proof fn law_quit_ends_the_session(debugger: DebuggerView)
    requires
        debugger.phase is Ready,
    ensures
        ({
            let (next, actions) = debugger.step(EventView::Command(CommandView::Quit));
            &&& actions == if debugger.inferior {
                seq![ActionView::Kill, ActionView::Return]
            } else {
                seq![ActionView::Return]
            }
            &&& next == (DebuggerView { inferior: false, phase: Phase::Finished, ..debugger })
            &&& forall|event: EventView| !#[trigger] next.expects(event)
        }),
{
}

/// An inferior that was started is let go on at once; if it could not be started, a line says so and
/// the next command is asked for.
pub proof fn law_a_started_inferior_is_let_go_on(debugger: DebuggerView, ok: bool)
    requires
        debugger.phase is Spawning,
    ensures
        ({
            let (next, actions) = debugger.step(EventView::Spawned(ok));
            &&& actions == if ok {
                seq![ActionView::Resume]
            } else {
                seq![ActionView::Print("Error starting subprocess"@), ActionView::Prompt]
            }
            &&& next == (DebuggerView {
                inferior: ok,
                phase: if ok {
                    Phase::Resumed(ResumedBy::Run)
                } else {
                    Phase::Ready
                },
                ..debugger
            })
        }),
{
}

/// Whatever an inferior came to, one line is printed about it, first, with the name of the signal or
/// the exit code in it, in the words of the command that let the inferior go on.
pub proof fn law_a_halt_is_told_in_the_words_of_the_command(
    debugger: DebuggerView,
    by: ResumedBy,
    status: StatusView,
)
    requires
        debugger.phase == Phase::Resumed(by),
    ensures
        ({
            let actions = debugger.step(EventView::Halted(status)).1;
            &&& actions.len() >= 2
            &&& actions[0] == ActionView::Print(
                match (status, by) {
                    (StatusView::Stopped(signal, _), ResumedBy::Run) => "Child stopped. (Signal "@
                        + signal + ")"@,
                    (StatusView::Exited(code), ResumedBy::Run) => "Child exited. (Exit code "@
                        + signed_decimal(code as int) + ")"@,
                    (StatusView::Signaled(signal), ResumedBy::Run) => "Child exited. (Signal "@
                        + signal + ")"@,
                    (StatusView::Stopped(signal, _), ResumedBy::Cont) =>
                        "Subprocess stopped at signal "@ + signal,
                    (StatusView::Exited(code), ResumedBy::Cont) =>
                        "Subprocess exited with exit code "@ + signed_decimal(code as int),
                    (StatusView::Signaled(signal), ResumedBy::Cont) =>
                        "Subprocess exited at singal "@ + signal,
                },
            )
            &&& forall|i: int| 0 < i < actions.len() ==> !(#[trigger] actions[i] is Print)
        }),
{
}

/// An inferior is let go of exactly if it has ended. Where it has stopped after being started, the
/// source line of the very address at which it stopped is looked up; in all other cases the next
/// command is asked for.
pub proof fn law_a_stop_is_located_and_an_end_forgotten(
    debugger: DebuggerView,
    by: ResumedBy,
    status: StatusView,
)
    requires
        debugger.phase == Phase::Resumed(by),
    ensures
        ({
            let (next, actions) = debugger.step(EventView::Halted(status));
            &&& actions.drop_first() == match status {
                StatusView::Stopped(_, rip) => if by is Run {
                    seq![ActionView::Locate(rip)]
                } else {
                    seq![ActionView::Prompt]
                },
                _ => seq![ActionView::Forget, ActionView::Prompt],
            }
            &&& next == (DebuggerView {
                inferior: status is Stopped,
                phase: if by is Run && status is Stopped {
                    Phase::Locating
                } else {
                    Phase::Ready
                },
                ..debugger
            })
        }),
{
    let actions = debugger.step(EventView::Halted(status)).1;
    assert(actions.drop_first() =~= match status {
        StatusView::Stopped(_, rip) => if by is Run {
            seq![ActionView::Locate(rip)]
        } else {
            seq![ActionView::Prompt]
        },
        _ => seq![ActionView::Forget, ActionView::Prompt],
    });
}

/// A source line that was found is printed as it was found, and nothing is printed otherwise; the
/// stopped inferior stays, and the next command is asked for.
pub proof fn law_a_line_that_was_found_is_printed(debugger: DebuggerView, line: Option<Seq<char>>)
    requires
        debugger.phase is Locating,
    ensures
        ({
            let (next, actions) = debugger.step(EventView::Located(line));
            &&& actions == match line {
                Some(text) => seq![ActionView::Print("Stopped at "@ + text), ActionView::Prompt],
                None => seq![ActionView::Prompt],
            }
            &&& next == (DebuggerView { inferior: true, phase: Phase::Ready, ..debugger })
        }),
{
}

/// The target and the place of the history never change; breakpoints are never lost or changed.
pub proof fn law_a_step_keeps_target_history_and_breakpoints(
    debugger: DebuggerView,
    event: EventView,
)
    ensures
        debugger.step(event).0.target == debugger.target,
        debugger.step(event).0.history_path == debugger.history_path,
        debugger.breakpoints.is_prefix_of(debugger.step(event).0.breakpoints),
        debugger.step(event).0.breakpoints.len() <= debugger.breakpoints.len() + 1,
{
}

/// Two debuggers that wait for the same, both with an inferior or both without, and with as many
/// breakpoints, answer all news alike, but for what the command to run starts.
pub proof fn law_what_is_debugged_makes_no_difference(
    a: DebuggerView,
    b: DebuggerView,
    event: EventView,
)
    requires
        a.phase == b.phase,
        a.inferior == b.inferior,
        a.breakpoints.len() == b.breakpoints.len(),
        !(event matches EventView::Command(CommandView::Run(_))),
    ensures
        a.step(event).1 == b.step(event).1,
        a.step(event).0.phase == b.step(event).0.phase,
        a.step(event).0.inferior == b.step(event).0.inferior,
{
}

/// A line with anything but white space in it is put on record as it was typed, in the history of
/// this debugger, and then its words are handed to the parser, all of them; a line without is
/// passed over and another is asked for.
pub proof fn law_a_line_is_recorded_and_its_words_parsed(debugger: DebuggerView, line: Seq<char>)
    ensures
        (exists|i: int| 0 <= i < line.len() && !is_space(#[trigger] line[i]))
            ==> debugger.prompt_step(PromptEventView::Line(line)) == seq![
            PromptActionView::Record { entry: line, path: debugger.history_path },
            PromptActionView::Parse(words(line)),
        ],
        (forall|i: int| 0 <= i < line.len() ==> is_space(#[trigger] line[i]))
            ==> debugger.prompt_step(PromptEventView::Line(line)) == seq![
            PromptActionView::Read { prompt: "(deet) "@ },
        ],
{
}

/// A command that the parser found is issued as it was found, and nothing else is done; the end of
/// the input stands for the command to quit.
pub proof fn law_a_parsed_command_is_issued_unchanged(debugger: DebuggerView, command: CommandView)
    ensures
        debugger.prompt_step(PromptEventView::Parsed(Some(command))) == seq![
            PromptActionView::Issue(command),
        ],
        debugger.prompt_step(PromptEventView::Eof) == debugger.prompt_step(
            PromptEventView::Parsed(Some(CommandView::Quit)),
        ),
{
}

/// Where there is no command yet, another line is asked for with the same prompt each time, after
/// what there is to say about the last one; an error in reading ends it all, with the error's own
/// text.
pub proof fn law_the_prompt_is_the_same_each_time(debugger: DebuggerView, text: Seq<char>)
    ensures
        debugger.prompt_step(PromptEventView::Started) == seq![
            PromptActionView::Read { prompt: "(deet) "@ },
        ],
        debugger.prompt_step(PromptEventView::Interrupted) == seq![
            PromptActionView::Print("Type \"quit\" to exit"@),
            PromptActionView::Read { prompt: "(deet) "@ },
        ],
        debugger.prompt_step(PromptEventView::Parsed(None)) == seq![
            PromptActionView::Print("Unrecognized command."@),
            PromptActionView::Read { prompt: "(deet) "@ },
        ],
        debugger.prompt_step(PromptEventView::Failed(text)) == seq![
            PromptActionView::Abort("Unexpected I/O error: "@ + text),
        ],
{
}

/// Two debuggers with their history in the same place treat the user alike, whatever they debug.
pub proof fn law_the_prompt_depends_on_the_history_alone(
    a: DebuggerView,
    b: DebuggerView,
    event: PromptEventView,
)
    requires
        a.history_path == b.history_path,
    ensures
        a.prompt_step(event) == b.prompt_step(event),
{
}

/// The value of a command, of what an inferior came to, or of an event holds all that it says.
pub proof fn law_values_of_news_hold_everything(
    command: DebuggerCommand,
    status: Status,
    event: Event,
)
    ensures
        match command {
            DebuggerCommand::Run(args) => command@ == CommandView::Run(args.deep_view()),
            DebuggerCommand::Cont => command@ == CommandView::Cont,
            DebuggerCommand::Backtrace => command@ == CommandView::Backtrace,
            DebuggerCommand::Breakpoint(text) => command@ == CommandView::Breakpoint(text@),
            DebuggerCommand::Quit => command@ == CommandView::Quit,
        },
        match status {
            Status::Stopped(signal, rip) => status@ == StatusView::Stopped(signal@, rip),
            Status::Exited(code) => status@ == StatusView::Exited(code),
            Status::Signaled(signal) => status@ == StatusView::Signaled(signal@),
        },
        match event {
            Event::Command(given) => event@ == EventView::Command(given@),
            Event::Spawned(ok) => event@ == EventView::Spawned(ok),
            Event::Halted(at) => event@ == EventView::Halted(at@),
            Event::Located(Some(line)) => event@ == EventView::Located(Some(line@)),
            Event::Located(None) => event@ == EventView::Located(None),
        },
{
}

/// The value of an action holds all that it says.
pub proof fn law_values_of_actions_hold_everything(action: Action)
    ensures
        match action {
            Action::Kill => action@ == ActionView::Kill,
            Action::Forget => action@ == ActionView::Forget,
            Action::Spawn { target, args, breakpoints } => action@ == (ActionView::Spawn {
                target: target@,
                args: args.deep_view(),
                breakpoints: breakpoints@,
            }),
            Action::Resume => action@ == ActionView::Resume,
            Action::Locate(address) => action@ == ActionView::Locate(address),
            Action::Backtrace => action@ == ActionView::Backtrace,
            Action::Print(line) => action@ == ActionView::Print(line@),
            Action::Prompt => action@ == ActionView::Prompt,
            Action::Return => action@ == ActionView::Return,
        },
        action.deep_view() == action@,
{
}

/// The value of what happens at the prompt, or is asked for there, holds all that it says.
pub proof fn law_values_at_the_prompt_hold_everything(event: PromptEvent, action: PromptAction)
    ensures
        match event {
            PromptEvent::Started => event@ == PromptEventView::Started,
            PromptEvent::Interrupted => event@ == PromptEventView::Interrupted,
            PromptEvent::Eof => event@ == PromptEventView::Eof,
            PromptEvent::Failed(text) => event@ == PromptEventView::Failed(text@),
            PromptEvent::Line(line) => event@ == PromptEventView::Line(line@),
            PromptEvent::Parsed(Some(command)) => event@ == PromptEventView::Parsed(Some(command@)),
            PromptEvent::Parsed(None) => event@ == PromptEventView::Parsed(None),
        },
        match action {
            PromptAction::Read { prompt } => action@ == (PromptActionView::Read { prompt: prompt@ }),
            PromptAction::Print(line) => action@ == PromptActionView::Print(line@),
            PromptAction::Record { entry, path } => action@ == (PromptActionView::Record {
                entry: entry@,
                path: path@,
            }),
            PromptAction::Parse(tokens) => action@ == PromptActionView::Parse(tokens.deep_view()),
            PromptAction::Issue(command) => action@ == PromptActionView::Issue(command@),
            PromptAction::Abort(text) => action@ == PromptActionView::Abort(text@),
        },
        action.deep_view() == action@,
{
}

} // verus!
