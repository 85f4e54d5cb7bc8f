use deetbeam::debugger::command::{Action, DebuggerCommand, Event, Status};
use deetbeam::debugger::prompt::{PromptAction, PromptEvent};
use deetbeam::debugger::session::{Debugger, DwarfError, StartupError};

fn started() -> Debugger {
    match Debugger::new("samples/segfault", Ok(()), Some("/home/user".to_string())) {
        Ok(debugger) => debugger,
        Err(_) => panic!("the debugger starts"),
    }
}

/// Each action as a line of text.
fn shown(actions: &[Action]) -> Vec<String> {
    actions
        .iter()
        .map(|action| match action {
            Action::Kill => "kill".to_string(),
            Action::Forget => "forget".to_string(),
            Action::Spawn { target, args, breakpoints } => {
                format!("spawn {} {:?} {:?}", target, args, breakpoints)
            }
            Action::Resume => "resume".to_string(),
            Action::Locate(address) => format!("locate {:#x}", address),
            Action::Backtrace => "backtrace".to_string(),
            Action::Print(line) => format!("print {}", line),
            Action::Prompt => "prompt".to_string(),
            Action::Return => "return".to_string(),
        })
        .collect()
}

/// Each action at the prompt as a line of text.
fn prompt_shown(actions: &[PromptAction]) -> Vec<String> {
    actions
        .iter()
        .map(|action| match action {
            PromptAction::Read { prompt } => format!("read {:?}", prompt),
            PromptAction::Print(line) => format!("print {}", line),
            PromptAction::Record { entry, path } => format!("record {:?} at {}", entry, path),
            PromptAction::Parse(tokens) => format!("parse {:?}", tokens),
            PromptAction::Issue(command) => format!("issue {}", name(command)),
            PromptAction::Abort(message) => format!("abort {}", message),
        })
        .collect()
}

fn name(command: &DebuggerCommand) -> String {
    match command {
        DebuggerCommand::Run(args) => format!("run {:?}", args),
        DebuggerCommand::Cont => "cont".to_string(),
        DebuggerCommand::Backtrace => "backtrace".to_string(),
        DebuggerCommand::Breakpoint(text) => format!("break {}", text),
        DebuggerCommand::Quit => "quit".to_string(),
    }
}

/// Hands the debugger an event that it expects.
fn tell(debugger: &mut Debugger, event: Event) -> Vec<String> {
    assert!(debugger.expects(&event));
    shown(&debugger.run(event))
}

fn command(command: DebuggerCommand) -> Event {
    Event::Command(command)
}

fn run_until_stopped(debugger: &mut Debugger) {
    tell(debugger, command(DebuggerCommand::Run(vec![])));
    tell(debugger, Event::Spawned(true));
    tell(debugger, Event::Halted(Status::Stopped("SIGTRAP".to_string(), 0x401136)));
    tell(debugger, Event::Located(None));
}

#[test]
fn a_new_debugger_remembers_its_target_and_history() {
    let mut debugger = started();
    assert_eq!(debugger.history_path(), "/home/user/.deet_history");
    assert!(debugger.breakpoints().is_empty());
    assert!(!debugger.has_inferior());
    assert_eq!(
        tell(&mut debugger, command(DebuggerCommand::Run(vec!["3".to_string(), "x".to_string()]))),
        vec!["spawn samples/segfault [\"3\", \"x\"] []"]
    );
}

#[test]
fn a_file_that_cannot_be_opened_ends_the_program() {
    match Debugger::new("nowhere", Err(DwarfError::ErrorOpeningFile), None) {
        Err(StartupError::Exit { message, code }) => {
            assert_eq!(message, "Could not open file nowhere");
            assert_eq!(code, 1);
        }
        _ => panic!("no debugger without its target"),
    }
}

#[test]
fn malformed_debug_data_end_the_program() {
    let error = DwarfError::DwarfFormatError("Io".to_string());
    match Debugger::new("a.out", Err(error), Some("/root".to_string())) {
        Err(StartupError::Exit { message, code }) => {
            assert_eq!(message, "Could not debugging symbols from a.out: Io");
            assert_eq!(code, 1);
        }
        _ => panic!("no debugger without debug data"),
    }
}

#[test]
fn a_missing_home_is_reported() {
    assert!(matches!(Debugger::new("a.out", Ok(()), None), Err(StartupError::NoHome)));
}

#[test]
fn a_run_that_stops_shows_the_line() {
    let mut debugger = started();
    tell(&mut debugger, command(DebuggerCommand::Run(vec![])));
    assert_eq!(tell(&mut debugger, Event::Spawned(true)), vec!["resume"]);
    assert!(debugger.has_inferior());
    assert_eq!(
        tell(&mut debugger, Event::Halted(Status::Stopped("SIGSEGV".to_string(), 0x40115a))),
        vec!["print Child stopped. (Signal SIGSEGV)", "locate 0x40115a"]
    );
    assert_eq!(
        tell(&mut debugger, Event::Located(Some("segfault.c:5".to_string()))),
        vec!["print Stopped at segfault.c:5", "prompt"]
    );
    assert!(debugger.has_inferior());
}

#[test]
fn a_stop_at_an_unknown_line_shows_none() {
    let mut debugger = started();
    tell(&mut debugger, command(DebuggerCommand::Run(vec![])));
    tell(&mut debugger, Event::Spawned(true));
    tell(&mut debugger, Event::Halted(Status::Stopped("SIGINT".to_string(), 1)));
    assert_eq!(tell(&mut debugger, Event::Located(None)), vec!["prompt"]);
}

#[test]
fn a_run_that_ends_leaves_no_inferior() {
    let mut debugger = started();
    tell(&mut debugger, command(DebuggerCommand::Run(vec![])));
    tell(&mut debugger, Event::Spawned(true));
    assert_eq!(
        tell(&mut debugger, Event::Halted(Status::Exited(-3))),
        vec!["print Child exited. (Exit code -3)", "forget", "prompt"]
    );
    assert!(!debugger.has_inferior());
    tell(&mut debugger, command(DebuggerCommand::Run(vec![])));
    tell(&mut debugger, Event::Spawned(true));
    assert_eq!(
        tell(&mut debugger, Event::Halted(Status::Signaled("SIGKILL".to_string()))),
        vec!["print Child exited. (Signal SIGKILL)", "forget", "prompt"]
    );
    assert!(!debugger.has_inferior());
}

#[test]
fn a_failed_start_is_reported() {
    let mut debugger = started();
    tell(&mut debugger, command(DebuggerCommand::Run(vec![])));
    assert_eq!(
        tell(&mut debugger, Event::Spawned(false)),
        vec!["print Error starting subprocess", "prompt"]
    );
    assert!(!debugger.has_inferior());
}

#[test]
fn a_second_run_kills_the_first_inferior() {
    let mut debugger = started();
    run_until_stopped(&mut debugger);
    assert_eq!(
        tell(&mut debugger, command(DebuggerCommand::Run(vec!["again".to_string()]))),
        vec!["kill", "spawn samples/segfault [\"again\"] []"]
    );
    assert!(!debugger.has_inferior());
}

#[test]
fn continuing_needs_an_inferior() {
    let mut debugger = started();
    assert_eq!(
        tell(&mut debugger, command(DebuggerCommand::Cont)),
        vec!["print No process running! Cannot execute continue instruction.", "prompt"]
    );
}

#[test]
fn continuing_reports_each_outcome() {
    let mut debugger = started();
    run_until_stopped(&mut debugger);
    assert_eq!(tell(&mut debugger, command(DebuggerCommand::Cont)), vec!["resume"]);
    assert_eq!(
        tell(&mut debugger, Event::Halted(Status::Stopped("SIGTRAP".to_string(), 2))),
        vec!["print Subprocess stopped at signal SIGTRAP", "prompt"]
    );
    assert!(debugger.has_inferior());
    tell(&mut debugger, command(DebuggerCommand::Cont));
    assert_eq!(
        tell(&mut debugger, Event::Halted(Status::Exited(0))),
        vec!["print Subprocess exited with exit code 0", "forget", "prompt"]
    );
    assert!(!debugger.has_inferior());
    run_until_stopped(&mut debugger);
    tell(&mut debugger, command(DebuggerCommand::Cont));
    assert_eq!(
        tell(&mut debugger, Event::Halted(Status::Signaled("SIGABRT".to_string()))),
        vec!["print Subprocess exited at singal SIGABRT", "forget", "prompt"]
    );
    assert!(!debugger.has_inferior());
}

#[test]
fn a_backtrace_needs_an_inferior() {
    let mut debugger = started();
    assert_eq!(tell(&mut debugger, command(DebuggerCommand::Backtrace)), vec!["prompt"]);
    run_until_stopped(&mut debugger);
    assert_eq!(tell(&mut debugger, command(DebuggerCommand::Backtrace)), vec!["backtrace", "prompt"]);
}

#[test]
fn breakpoints_are_kept_in_order_and_handed_to_each_run() {
    let mut debugger = started();
    let set = |text: &str| command(DebuggerCommand::Breakpoint(text.to_string()));
    assert_eq!(
        tell(&mut debugger, set("0x401136")),
        vec!["print Set breakpoint 1 at 0x401136", "prompt"]
    );
    assert_eq!(tell(&mut debugger, set("main")), vec!["prompt"]);
    assert_eq!(tell(&mut debugger, set("FF")), vec!["print Set breakpoint 2 at FF", "prompt"]);
    assert_eq!(
        tell(&mut debugger, set("0X401136")),
        vec!["print Set breakpoint 3 at 0X401136", "prompt"]
    );
    assert_eq!(debugger.breakpoints(), &vec![0x401136, 0xff, 0x401136]);
    assert_eq!(
        tell(&mut debugger, command(DebuggerCommand::Run(vec![]))),
        vec!["spawn samples/segfault [] [4198710, 255, 4198710]"]
    );
}

#[test]
fn quitting_leaves_no_inferior_behind() {
    let mut debugger = started();
    assert_eq!(tell(&mut debugger, command(DebuggerCommand::Quit)), vec!["return"]);
    let mut debugger = started();
    run_until_stopped(&mut debugger);
    assert_eq!(tell(&mut debugger, command(DebuggerCommand::Quit)), vec!["kill", "return"]);
    assert!(!debugger.has_inferior());
    assert!(!debugger.expects(&command(DebuggerCommand::Cont)));
}

#[test]
fn only_the_news_waited_for_is_expected() {
    let mut debugger = started();
    assert!(!debugger.expects(&Event::Spawned(true)));
    assert!(!debugger.expects(&Event::Located(None)));
    tell(&mut debugger, command(DebuggerCommand::Run(vec![])));
    assert!(!debugger.expects(&command(DebuggerCommand::Quit)));
    assert!(debugger.expects(&Event::Spawned(false)));
    tell(&mut debugger, Event::Spawned(true));
    assert!(debugger.expects(&Event::Halted(Status::Exited(0))));
    assert!(!debugger.expects(&Event::Spawned(true)));
}

#[test]
fn a_line_is_recorded_and_parsed() {
    let debugger = started();
    assert_eq!(
        prompt_shown(&debugger.get_next_command(PromptEvent::Line("  run a\tb ".to_string()))),
        vec![
            "record \"  run a\\tb \" at /home/user/.deet_history",
            "parse [\"run\", \"a\", \"b\"]"
        ]
    );
}

#[test]
fn a_blank_line_prompts_again() {
    let debugger = started();
    for line in ["", "   ", "\t\u{a0}"] {
        assert_eq!(
            prompt_shown(&debugger.get_next_command(PromptEvent::Line(line.to_string()))),
            vec!["read \"(deet) \""]
        );
    }
}

#[test]
fn the_prompt_handles_interrupts_ends_and_failures() {
    let debugger = started();
    assert_eq!(
        prompt_shown(&debugger.get_next_command(PromptEvent::Interrupted)),
        vec!["print Type \"quit\" to exit", "read \"(deet) \""]
    );
    assert_eq!(prompt_shown(&debugger.get_next_command(PromptEvent::Eof)), vec!["issue quit"]);
    assert_eq!(
        prompt_shown(&debugger.get_next_command(PromptEvent::Failed("Errno(EIO)".to_string()))),
        vec!["abort Unexpected I/O error: Errno(EIO)"]
    );
}

#[test]
fn parsed_words_become_a_command_or_a_complaint() {
    let debugger = started();
    let parsed = Some(DebuggerCommand::Breakpoint("0x1".to_string()));
    assert_eq!(
        prompt_shown(&debugger.get_next_command(PromptEvent::Parsed(parsed))),
        vec!["issue break 0x1"]
    );
    assert_eq!(
        prompt_shown(&debugger.get_next_command(PromptEvent::Parsed(None))),
        vec!["print Unrecognized command.", "read \"(deet) \""]
    );
}

#[test]
fn a_history_that_cannot_be_saved_is_reported() {
    assert_eq!(
        started().history_warning("permission denied"),
        "Warning: failed to save history file at /home/user/.deet_history: permission denied"
    );
}

#[test]
fn breakpoints_are_exactly_those_that_were_set() {
    let mut debugger = started();
    let set = |text: &str| command(DebuggerCommand::Breakpoint(text.to_string()));
    tell(&mut debugger, set("0x1"));
    run_until_stopped(&mut debugger);
    tell(&mut debugger, set("zz"));
    tell(&mut debugger, set("2"));
    tell(&mut debugger, command(DebuggerCommand::Backtrace));
    tell(&mut debugger, command(DebuggerCommand::Cont));
    tell(&mut debugger, Event::Halted(Status::Exited(0)));
    tell(&mut debugger, set("0xA"));
    assert_eq!(debugger.breakpoints(), &vec![1, 2, 10]);
}

#[test]
fn the_user_is_prompted_until_there_is_a_command() {
    let debugger = started();
    let mut lines = vec!["", "nonsense", "  ", "more nonsense", "cont", "quit"].into_iter();
    let mut prompts = 0;
    let mut complaints = 0;
    let mut event = PromptEvent::Started;
    let issued = 'prompting: loop {
        let mut next = None;
        for action in debugger.get_next_command(event) {
            match action {
                PromptAction::Read { prompt } => {
                    assert_eq!(prompt, "(deet) ");
                    prompts += 1;
                    next = Some(PromptEvent::Line(lines.next().unwrap().to_string()));
                }
                PromptAction::Print(line) => {
                    assert_eq!(line, "Unrecognized command.");
                    complaints += 1;
                }
                PromptAction::Record { .. } => {}
                PromptAction::Parse(tokens) => {
                    let parsed = match tokens[0].as_str() {
                        "cont" => Some(DebuggerCommand::Cont),
                        _ => None,
                    };
                    next = Some(PromptEvent::Parsed(parsed));
                }
                PromptAction::Issue(command) => break 'prompting command,
                PromptAction::Abort(message) => panic!("{}", message),
            }
        }
        event = next.unwrap();
    };
    assert_eq!(name(&issued), "cont");
    assert_eq!(prompts, 5);
    assert_eq!(complaints, 2);
}
