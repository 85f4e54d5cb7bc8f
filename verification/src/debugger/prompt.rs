//! From what the user types to a command.
use crate::debugger::command::{CommandView, DebuggerCommand};
use crate::debugger::session::{Debugger, DebuggerView};
use crate::text::words::{
    blank, is_blank, law_only_a_blank_line_has_no_words, split_whitespace, words,
};
use vstd::prelude::*;

verus! {

/// What came of prompting the user, or of parsing a line.
pub enum PromptEvent {
    /// A command is wanted.
    Started,
    /// The user interrupted the prompt.
    Interrupted,
    /// The input has ended.
    Eof,
    /// The prompt failed, in the way this text describes.
    Failed(String),
    /// The user typed a line.
    Line(String),
    /// The words of a line were parsed; `None` if they are no command.
    Parsed(Option<DebuggerCommand>),
}

/// The value of a [`PromptEvent`].
pub enum PromptEventView {
    Started,
    Interrupted,
    Eof,
    Failed(Seq<char>),
    Line(Seq<char>),
    Parsed(Option<CommandView>),
}

impl View for PromptEvent {
    type V = PromptEventView;

    open spec fn view(&self) -> PromptEventView {
        match self {
            PromptEvent::Started => PromptEventView::Started,
            PromptEvent::Interrupted => PromptEventView::Interrupted,
            PromptEvent::Eof => PromptEventView::Eof,
            PromptEvent::Failed(text) => PromptEventView::Failed(text@),
            PromptEvent::Line(line) => PromptEventView::Line(line@),
            PromptEvent::Parsed(None) => PromptEventView::Parsed(None),
            PromptEvent::Parsed(Some(command)) => PromptEventView::Parsed(Some(command@)),
        }
    }
}

/// What to do at the prompt, in the order given.
pub enum PromptAction {
    /// Prompt the user with this text, and report what came of it.
    Read { prompt: String },
    /// Print this line.
    Print(String),
    /// Add `entry` to the command history and save the history at `path`. If it cannot be saved,
    /// print the line that [`Debugger::history_warning`] gives.
    Record { entry: String, path: String },
    /// Parse these words as a command, and report `Parsed`.
    Parse(Vec<String>),
    /// Carry out this command.
    Issue(DebuggerCommand),
    /// Give up with this message.
    Abort(String),
}

/// The value of a [`PromptAction`].
pub enum PromptActionView {
    Read { prompt: Seq<char> },
    Print(Seq<char>),
    Record { entry: Seq<char>, path: Seq<char> },
    Parse(Seq<Seq<char>>),
    Issue(CommandView),
    Abort(Seq<char>),
}

impl View for PromptAction {
    type V = PromptActionView;

    open spec fn view(&self) -> PromptActionView {
        match self {
            PromptAction::Read { prompt } => PromptActionView::Read { prompt: prompt@ },
            PromptAction::Print(line) => PromptActionView::Print(line@),
            PromptAction::Record { entry, path } => PromptActionView::Record {
                entry: entry@,
                path: path@,
            },
            PromptAction::Parse(tokens) => PromptActionView::Parse(tokens.deep_view()),
            PromptAction::Issue(command) => PromptActionView::Issue(command@),
            PromptAction::Abort(message) => PromptActionView::Abort(message@),
        }
    }
}

impl DeepView for PromptAction {
    type V = PromptActionView;

    open spec fn deep_view(&self) -> PromptActionView {
        self@
    }
}

/// Prompt the user for a line.
pub open spec fn read_line() -> PromptActionView {
    PromptActionView::Read { prompt: "(deet) "@ }
}

impl DebuggerView {
    /// What an event at the prompt leads to.
    pub open spec fn prompt_step(self, event: PromptEventView) -> Seq<PromptActionView> {
        match event {
            PromptEventView::Started => seq![read_line()],
            PromptEventView::Interrupted => seq![
                PromptActionView::Print("Type \"quit\" to exit"@),
                read_line(),
            ],
            PromptEventView::Eof => seq![PromptActionView::Issue(CommandView::Quit)],
            PromptEventView::Failed(text) => seq![
                PromptActionView::Abort("Unexpected I/O error: "@ + text),
            ],
            PromptEventView::Line(line) => if blank(line) {
                seq![read_line()]
            } else {
                seq![
                    PromptActionView::Record { entry: line, path: self.history_path },
                    PromptActionView::Parse(words(line)),
                ]
            },
            PromptEventView::Parsed(Some(command)) => seq![PromptActionView::Issue(command)],
            PromptEventView::Parsed(None) => seq![
                PromptActionView::Print("Unrecognized command."@),
                read_line(),
            ],
        }
    }
}

/// The action that prompts the user for a line.
fn read_action() -> (action: PromptAction)
    ensures
        action@ == read_line(),
{
    PromptAction::Read { prompt: "(deet) ".to_owned() }
}

impl Debugger {
    /// Answers an event at the prompt: what to do next, in order, until a command is issued. The
    /// words of a line are handed on only if there are any.
    pub fn get_next_command(&self, event: PromptEvent) -> (actions: Vec<PromptAction>)
        ensures
            actions.deep_view() == self@.prompt_step(event@),
            forall|i: int|
                0 <= i < actions@.len() ==> match #[trigger] actions.deep_view()[i] {
                    PromptActionView::Parse(tokens) => tokens.len() > 0,
                    _ => true,
                },
    {
        let ghost expected = self@.prompt_step(event@);
        let actions = match event {
            PromptEvent::Started => vec![read_action()],
            PromptEvent::Interrupted => vec![
                PromptAction::Print("Type \"quit\" to exit".to_owned()),
                read_action(),
            ],
            PromptEvent::Eof => vec![PromptAction::Issue(DebuggerCommand::Quit)],
            PromptEvent::Failed(text) => {
                let mut message = "Unexpected I/O error: ".to_owned();
                message.append(text.as_str());
                vec![PromptAction::Abort(message)]
            },
            PromptEvent::Line(line) => {
                if is_blank(line.as_str()) {
                    vec![read_action()]
                } else {
                    let tokens = split_whitespace(line.as_str());
                    proof {
                        law_only_a_blank_line_has_no_words(line@);
                    }
                    vec![
                        PromptAction::Record { entry: line, path: self.history_path().to_owned() },
                        PromptAction::Parse(tokens),
                    ]
                }
            },
            PromptEvent::Parsed(Some(command)) => vec![PromptAction::Issue(command)],
            PromptEvent::Parsed(None) => vec![
                PromptAction::Print("Unrecognized command.".to_owned()),
                read_action(),
            ],
        };
        assert(actions.deep_view() =~= expected);
        actions
    }

    /// The line to print when the command history cannot be saved.
    pub fn history_warning(&self, err: &str) -> (line: String)
        ensures
            line@ == "Warning: failed to save history file at "@ + self@.history_path + ": "@
                + err@,
    {
        let mut line = "Warning: failed to save history file at ".to_owned();
        line.append(self.history_path());
        line.append(": ");
        line.append(err);
        line
    }
}

} // verus!
