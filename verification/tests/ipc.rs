use quickbar::ipc::{Command, Invocation, USAGE};

fn words(words: &[&str]) -> Vec<String> {
    words.iter().map(|word| word.to_string()).collect()
}

#[test]
fn every_command_is_spelled_by_its_words() {
    let commands: [(&[&str], Command); 7] = [
        (&["toggle-bar"], Command::ToggleBar),
        (&["show-bar"], Command::ShowBar),
        (&["hide-bar"], Command::HideBar),
        (&["dnd", "on"], Command::Dnd { enabled: true }),
        (&["dnd", "off"], Command::Dnd { enabled: false }),
        (&["reload"], Command::Reload),
        (&["quit"], Command::Quit),
    ];
    for (args, command) in commands {
        assert_eq!(Command::parse(&words(args)), Ok(command));
        assert!(USAGE.contains(args[0]), "the usage should name {}", args[0]);
    }
}

#[test]
fn anything_else_is_refused_with_a_reason() {
    let refused: [(&[&str], &str); 7] = [
        (&[], "missing command"),
        (&["explode"], "unknown command: explode"),
        (&["dnd"], "unknown command: dnd"),
        (&[""], "unknown command: "),
        (&["dnd", "maybe"], "invalid value for `dnd`: maybe (expected `on` or `off`)"),
        (&["dnd", "on", "off"], "`dnd` takes exactly one argument: on|off"),
        (&["quit", "now"], "`quit` takes no arguments"),
    ];
    for (args, reason) in refused {
        assert_eq!(Command::parse(&words(args)), Err(reason.to_string()));
    }
}

#[test]
fn the_first_argument_decides_what_the_program_does() {
    assert_eq!(Invocation::of(&words(&[])), Invocation::Service);
    assert_eq!(Invocation::of(&words(&["-h"])), Invocation::Help);
    assert_eq!(Invocation::of(&words(&["--help", "quit"])), Invocation::Help);
    assert_eq!(Invocation::of(&words(&["--preview"])), Invocation::Preview);
    assert_eq!(Invocation::of(&words(&["quit"])), Invocation::Send);
}
