use bugs::cli::{classify_chat_input, dispatch, status_line, ChatInput, CliAction, CliCommand, DaemonAction};

#[test]
fn subcommands() {
    assert!(matches!(dispatch(None), CliAction::ChatMode));
    assert!(matches!(dispatch(Some(CliCommand::Stop)), CliAction::Daemon(DaemonAction::Stop)));
    match dispatch(Some(CliCommand::Web)) {
        CliAction::Frontend(b) => assert_eq!(b, "bugs-web"),
        _ => panic!(),
    }
    assert_eq!(status_line(false), "⚫ bugs-daemon 未运行");
}

#[test]
fn chat_lines() {
    assert_eq!(classify_chat_input("  /exit \n"), ChatInput::Exit);
    assert_eq!(classify_chat_input(" \n"), ChatInput::Skip);
    assert_eq!(classify_chat_input(" hello \n"), ChatInput::Send("hello".into()));
}
