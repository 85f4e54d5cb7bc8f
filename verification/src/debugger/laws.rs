//! What holds of every debugging session.
use crate::debugger::command::{ActionView, CommandView, EventView, StatusView};
use crate::debugger::prompt::{read_line, PromptActionView, PromptEventView};
use crate::debugger::session::{DebuggerView, Phase};
use crate::text::address::address_of;
use crate::text::words::{
    blank, is_word, law_only_a_blank_line_has_no_words, law_words_hold_no_space, words,
};
use vstd::prelude::*;

verus! {

/// Whether there is an inferior once `event` has happened and before anything is done about it.
pub open spec fn held_after(debugger: DebuggerView, event: EventView) -> bool {
    match event {
        EventView::Spawned(ok) => ok,
        EventView::Halted(StatusView::Exited(_)) => false,
        EventView::Halted(StatusView::Signaled(_)) => false,
        _ => debugger.inferior,
    }
}

/// Whether there is an inferior after `actions`, where `held` says if there was one before. Of the
/// actions only a kill settles that at once: a spawn reports its outcome in an event.
pub open spec fn held_through(held: bool, actions: Seq<ActionView>) -> bool
    decreases actions.len(),
{
    if actions.len() == 0 {
        held
    } else {
        held_through(held, actions.drop_last()) && !(actions.last() is Kill)
    }
}

/// Whether `action` makes sense with an inferior (`held`) or without one.
pub open spec fn in_order(held: bool, action: ActionView) -> bool {
    match action {
        ActionView::Kill | ActionView::Resume | ActionView::Locate(_) | ActionView::Backtrace => held,
        ActionView::Spawn { .. } | ActionView::Forget | ActionView::Return => !held,
        ActionView::Print(_) | ActionView::Prompt => true,
    }
}

/// At no time are there two inferiors, none is left behind, and nothing is asked of one that does
/// not exist: a new inferior is spawned, and the session ended, only when there is none (the old
/// one has been killed or has ended), and one is killed, resumed or inspected only while there is
/// one. What the debugger believes about its inferior is true after each step.
pub proof fn law_one_inferior_at_a_time(debugger: DebuggerView, event: EventView)
    requires
        debugger.wf(),
        debugger.expects(event),
    ensures
        ({
            let (next, actions) = debugger.step(event);
            let held = held_after(debugger, event);
            &&& next.inferior == held_through(held, actions)
            &&& forall|i: int|
                0 <= i < actions.len() ==> in_order(
                    held_through(held, actions.take(i)),
                    #[trigger] actions[i],
                )
        }),
{
    reveal_with_fuel(held_through, 4);
    lemma_takes(debugger.step(event).1);
}

proof fn lemma_takes(actions: Seq<ActionView>)
    requires
        0 < actions.len() <= 3,
    ensures
        actions.take(0) == Seq::<ActionView>::empty(),
        actions.take(actions.len() as int) == actions,
        forall|i: int|
            0 < i <= actions.len() ==> (#[trigger] actions.take(i)).drop_last() == actions.take(
                i - 1,
            ) && actions.take(i).last() == actions[i - 1],
        actions.drop_last() == actions.take(actions.len() - 1),
{
    assert(actions.take(0) =~= Seq::<ActionView>::empty());
    assert(actions.take(actions.len() as int) =~= actions);
    assert(actions.drop_last() =~= actions.take(actions.len() - 1));
    assert forall|i: int| 0 < i <= actions.len() implies (#[trigger] actions.take(i)).drop_last()
        == actions.take(i - 1) && actions.take(i).last() == actions[i - 1] by {
        assert(actions.take(i).drop_last() =~= actions.take(i - 1));
    }
}

/// Whether an inferior is kept hold of after `actions`, where `kept` says if one was before: a kill
/// lets go of it, and so does forgetting one that has ended.
pub open spec fn kept_through(kept: bool, actions: Seq<ActionView>) -> bool
    decreases actions.len(),
{
    if actions.len() == 0 {
        kept
    } else {
        kept_through(kept, actions.drop_last()) && !(actions.last() is Kill)
            && !(actions.last() is Forget)
    }
}

/// An inferior is kept hold of exactly as long as there is one: from its start, by the actions
/// alone, until it is killed or has ended.
pub proof fn law_an_inferior_is_let_go_of_when_it_ends(debugger: DebuggerView, event: EventView)
    requires
        debugger.wf(),
        debugger.expects(event),
    ensures
        ({
            let (next, actions) = debugger.step(event);
            let kept = match event {
                EventView::Spawned(ok) => ok,
                _ => debugger.inferior,
            };
            next.inferior == kept_through(kept, actions)
        }),
{
    reveal_with_fuel(kept_through, 4);
    lemma_takes(debugger.step(event).1);
}

/// Each step ends with the one action whose outcome the debugger then waits for.
pub proof fn law_a_step_ends_with_what_it_waits_for(debugger: DebuggerView, event: EventView)
    requires
        debugger.expects(event),
    ensures
        ({
            let (next, actions) = debugger.step(event);
            &&& actions.len() > 0
            &&& match next.phase {
                Phase::Ready => actions.last() is Prompt,
                Phase::Spawning => actions.last() is Spawn,
                Phase::Resumed(_) => actions.last() is Resume,
                Phase::Locating => actions.last() is Locate,
                Phase::Finished => actions.last() is Return,
            }
        }),
{
}

/// The debugger after a run of events.
pub open spec fn session(debugger: DebuggerView, events: Seq<EventView>) -> DebuggerView
    decreases events.len(),
{
    if events.len() == 0 {
        debugger
    } else {
        session(debugger, events.drop_last()).step(events.last()).0
    }
}

/// Whether each of `events` is what the debugger waits for when it comes.
pub open spec fn orderly(debugger: DebuggerView, events: Seq<EventView>) -> bool {
    forall|i: int|
        0 <= i < events.len() ==> session(debugger, #[trigger] events.take(i)).expects(events[i])
}

/// The addresses of the breakpoint commands among `events`, in order, without those that spell no
/// address.
pub open spec fn addresses_set(events: Seq<EventView>) -> Seq<usize>
    decreases events.len(),
{
    if events.len() == 0 {
        Seq::empty()
    } else {
        let before = addresses_set(events.drop_last());
        match events.last() {
            EventView::Command(CommandView::Breakpoint(text)) => match address_of(text) {
                Some(address) => before.push(address),
                None => before,
            },
            _ => before,
        }
    }
}

/// Throughout a session the debugger stays well-formed and keeps its target and its history file.
/// Its breakpoints are those it had, followed by the address of each breakpoint command that spells
/// one, in order: none is forgotten, added or moved.
pub proof fn law_a_session_keeps_its_breakpoints(debugger: DebuggerView, events: Seq<EventView>)
    requires
        debugger.wf(),
        orderly(debugger, events),
    ensures
        session(debugger, events).wf(),
        session(debugger, events).target == debugger.target,
        session(debugger, events).history_path == debugger.history_path,
        session(debugger, events).breakpoints == debugger.breakpoints + addresses_set(events),
    decreases events.len(),
{
    if events.len() == 0 {
        assert(debugger.breakpoints + addresses_set(events) =~= debugger.breakpoints);
    } else {
        let before = events.drop_last();
        assert(events.take(events.len() - 1) =~= before);
        assert forall|i: int| 0 <= i < before.len() implies session(
            debugger,
            #[trigger] before.take(i),
        ).expects(before[i]) by {
            assert(before.take(i) =~= events.take(i));
        }
        law_a_session_keeps_its_breakpoints(debugger, before);
        assert(session(debugger, before).expects(events.last()));
        assert(session(debugger, events).breakpoints =~= debugger.breakpoints + addresses_set(
            events,
        ));
    }
}

/// What holds of one step holds of each step of a session: whatever has happened before, there are
/// never two inferiors, none is left behind, and nothing is asked of one that does not exist.
pub proof fn law_one_inferior_throughout_a_session(
    debugger: DebuggerView,
    events: Seq<EventView>,
    k: int,
)
    requires
        debugger.wf(),
        orderly(debugger, events),
        0 <= k < events.len(),
    ensures
        ({
            let now = session(debugger, events.take(k));
            let (next, actions) = now.step(events[k]);
            let held = held_after(now, events[k]);
            &&& next == session(debugger, events.take(k + 1))
            &&& next.inferior == held_through(held, actions)
            &&& forall|i: int|
                0 <= i < actions.len() ==> in_order(
                    held_through(held, actions.take(i)),
                    #[trigger] actions[i],
                )
        }),
{
    let before = events.take(k);
    assert forall|i: int| 0 <= i < before.len() implies session(
        debugger,
        #[trigger] before.take(i),
    ).expects(before[i]) by {
        assert(before.take(i) =~= events.take(i));
    }
    law_a_session_keeps_its_breakpoints(debugger, before);
    law_one_inferior_at_a_time(session(debugger, before), events[k]);
    assert(events.take(k + 1).drop_last() =~= before);
}

/// Every inferior is started with all the breakpoints that have been set, in the order in which
/// they were set.
pub proof fn law_a_spawn_gets_every_breakpoint(debugger: DebuggerView, event: EventView, i: int)
    requires
        debugger.expects(event),
        0 <= i < debugger.step(event).1.len(),
        debugger.step(event).1[i] is Spawn,
    ensures
        debugger.step(event).1[i]->breakpoints == debugger.breakpoints,
        debugger.step(event).1[i]->target == debugger.target,
{
}

/// The user is prompted again and again until there is a command: only the end of the input, a
/// failure of the prompt, a parsed command and a line that is still to be parsed end without
/// another prompt.
pub proof fn law_the_prompt_repeats_until_a_command(debugger: DebuggerView, event: PromptEventView)
    ensures
        ({
            let last = debugger.prompt_step(event).last();
            match event {
                PromptEventView::Eof | PromptEventView::Parsed(Some(_)) => last is Issue,
                PromptEventView::Failed(_) => last is Abort,
                PromptEventView::Line(line) if !blank(line) => last is Parse,
                _ => last is Read,
            }
        }),
{
}

/// Words are handed to the command parser only if there are any, and each of them is a word.
pub proof fn law_the_parser_gets_words(debugger: DebuggerView, event: PromptEventView, i: int)
    requires
        0 <= i < debugger.prompt_step(event).len(),
    ensures
        debugger.prompt_step(event)[i] matches PromptActionView::Parse(tokens) ==> {
            &&& tokens.len() > 0
            &&& forall|j: int| 0 <= j < tokens.len() ==> is_word(#[trigger] tokens[j])
        },
{
    if let PromptEventView::Line(line) = event {
        law_only_a_blank_line_has_no_words(line);
        law_words_hold_no_space(line);
    }
}

/// How the words of a line are read as a command, if they are one.
pub type Parser = spec_fn(Seq<Seq<char>>) -> Option<CommandView>;

/// What a line that the user types leads to, up to the next prompt or a command.
pub open spec fn line_actions(debugger: DebuggerView, line: Seq<char>, parser: Parser) -> Seq<
    PromptActionView,
> {
    debugger.prompt_step(PromptEventView::Line(line)) + if blank(line) {
        Seq::empty()
    } else {
        debugger.prompt_step(PromptEventView::Parsed(parser(words(line))))
    }
}

/// What wanting a command leads to, where the user types these lines.
pub open spec fn prompting(debugger: DebuggerView, lines: Seq<Seq<char>>, parser: Parser) -> Seq<
    PromptActionView,
>
    decreases lines.len(),
{
    if lines.len() == 0 {
        debugger.prompt_step(PromptEventView::Started)
    } else {
        prompting(debugger, lines.drop_last(), parser) + line_actions(
            debugger,
            lines.last(),
            parser,
        )
    }
}

/// How often `wanted` occurs among `actions`.
pub open spec fn times(actions: Seq<PromptActionView>, wanted: PromptActionView) -> nat
    decreases actions.len(),
{
    if actions.len() == 0 {
        0
    } else {
        times(actions.drop_last(), wanted) + if actions.last() == wanted {
            1nat
        } else {
            0
        }
    }
}

/// How many of `lines` are not blank.
pub open spec fn typed(lines: Seq<Seq<char>>) -> nat
    decreases lines.len(),
{
    if lines.len() == 0 {
        0
    } else {
        typed(lines.drop_last()) + if blank(lines.last()) {
            0nat
        } else {
            1
        }
    }
}

proof fn lemma_times_push(
    actions: Seq<PromptActionView>,
    next: PromptActionView,
    wanted: PromptActionView,
)
    ensures
        times(actions.push(next), wanted) == times(actions, wanted) + if next == wanted {
            1nat
        } else {
            0
        },
{
    assert(actions.push(next).drop_last() =~= actions);
}

/// The complaint about words that are no command.
pub open spec fn complaint() -> PromptActionView {
    PromptActionView::Print("Unrecognized command."@)
}

/// While the user types nothing that is a command, each line leads to one more prompt, each line
/// that is not blank to one complaint, and nothing to a command.
pub proof fn law_useless_lines_lead_to_prompts(
    debugger: DebuggerView,
    lines: Seq<Seq<char>>,
    parser: Parser,
    command: CommandView,
)
    requires
        forall|i: int|
            0 <= i < lines.len() ==> blank(#[trigger] lines[i]) || parser(words(lines[i])) is None,
    ensures
        times(prompting(debugger, lines, parser), read_line()) == lines.len() + 1,
        times(prompting(debugger, lines, parser), complaint()) == typed(lines),
        times(prompting(debugger, lines, parser), PromptActionView::Issue(command)) == 0,
    decreases lines.len(),
{
    let issue = PromptActionView::Issue(command);
    let actions = prompting(debugger, lines, parser);
    let none = Seq::<PromptActionView>::empty();
    if lines.len() == 0 {
        assert(actions =~= none.push(read_line()));
        lemma_times_push(none, read_line(), read_line());
        lemma_times_push(none, read_line(), complaint());
        lemma_times_push(none, read_line(), issue);
    } else {
        let before = lines.drop_last();
        let line = lines.last();
        assert forall|i: int| 0 <= i < before.len() implies blank(#[trigger] before[i]) || parser(
            words(before[i]),
        ) is None by {
            assert(before[i] == lines[i]);
        }
        assert(line == lines[lines.len() - 1]);
        law_useless_lines_lead_to_prompts(debugger, before, parser, command);
        let so_far = prompting(debugger, before, parser);
        if blank(line) {
            assert(actions =~= so_far.push(read_line()));
            lemma_times_push(so_far, read_line(), read_line());
            lemma_times_push(so_far, read_line(), complaint());
            lemma_times_push(so_far, read_line(), issue);
        } else {
            let record = PromptActionView::Record { entry: line, path: debugger.history_path };
            let parse = PromptActionView::Parse(words(line));
            assert(actions =~= so_far.push(record).push(parse).push(complaint()).push(read_line()));
            assert forall|wanted: PromptActionView| #[trigger]
                times(actions, wanted) == times(so_far, wanted) + (if record == wanted || parse
                == wanted || complaint() == wanted || read_line() == wanted {
                1nat
            } else {
                0
            }) by {
                lemma_times_push(so_far, record, wanted);
                lemma_times_push(so_far.push(record), parse, wanted);
                lemma_times_push(so_far.push(record).push(parse), complaint(), wanted);
                lemma_times_push(
                    so_far.push(record).push(parse).push(complaint()),
                    read_line(),
                    wanted,
                );
            }
        }
    }
}

/// The first line that is a command ends the prompting with that command, and is the only one that
/// does: for `k` lines before it the user has been prompted `k + 1` times, and has seen one
/// complaint for each of those lines that was not blank.
pub proof fn law_the_first_command_typed_is_issued(
    debugger: DebuggerView,
    lines: Seq<Seq<char>>,
    line: Seq<char>,
    parser: Parser,
)
    requires
        forall|i: int|
            0 <= i < lines.len() ==> blank(#[trigger] lines[i]) || parser(words(lines[i])) is None,
        !blank(line),
        parser(words(line)) is Some,
    ensures
        ({
            let actions = prompting(debugger, lines.push(line), parser);
            let issue = PromptActionView::Issue(parser(words(line))->0);
            &&& actions.last() == issue
            &&& times(actions, issue) == 1
            &&& times(actions, read_line()) == lines.len() + 1
            &&& times(actions, complaint()) == typed(lines)
        }),
{
    let command = parser(words(line))->0;
    let issue = PromptActionView::Issue(command);
    let record = PromptActionView::Record { entry: line, path: debugger.history_path };
    let parse = PromptActionView::Parse(words(line));
    law_useless_lines_lead_to_prompts(debugger, lines, parser, command);
    assert(lines.push(line).drop_last() =~= lines);
    let so_far = prompting(debugger, lines, parser);
    let actions = prompting(debugger, lines.push(line), parser);
    assert(actions =~= so_far.push(record).push(parse).push(issue));
    assert forall|wanted: PromptActionView| #[trigger]
        times(actions, wanted) == times(so_far, wanted) + (if record == wanted || parse == wanted
            || issue == wanted {
            1nat
        } else {
            0
        }) by {
        lemma_times_push(so_far, record, wanted);
        lemma_times_push(so_far.push(record), parse, wanted);
        lemma_times_push(so_far.push(record).push(parse), issue, wanted);
    }
}

} // verus!
