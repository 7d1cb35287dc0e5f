use bugs::tui::{
    auto_register_from_env, route_command, App, CommandRoute, I18n, Key, KeyOutcome, Lang, MsgRole, Panel,
};

fn env(pairs: &[(&str, &str)]) -> Vec<(String, String)> {
    pairs.iter().map(|(k, v)| (k.to_string(), v.to_string())).collect()
}

fn type_text(app: &mut App, text: &str) {
    for c in text.chars() {
        assert_eq!(app.handle_key(Key::Char(c)), KeyOutcome::Continue);
    }
}

#[test]
fn startup_model_and_providers() {
    let (model, providers) = auto_register_from_env(&env(&[]));
    assert_eq!(model, "gpt-4o-mini");
    assert_eq!(providers, vec!["ollama"]);
    let (model, providers) =
        auto_register_from_env(&env(&[("BUGS_MODEL", "deepseek-chat"), ("DEEPSEEK_API_KEY", "k"), ("OPENAI_API_KEY", "o")]));
    assert_eq!(model, "deepseek-chat");
    assert_eq!(providers, vec!["openai", "deepseek", "ollama"]);
}

#[test]
fn typing_editing_and_sending() {
    let mut app = App::new(Lang::En);
    type_text(&mut app, "hllo");
    app.handle_key(Key::Left);
    app.handle_key(Key::Left);
    app.handle_key(Key::Left);
    type_text(&mut app, "e");
    assert_eq!(app.input, "hello");
    assert_eq!(app.cursor, 2);
    app.handle_key(Key::Backspace);
    assert_eq!(app.input, "hllo");
    app.handle_key(Key::Right);
    app.handle_key(Key::Right);
    app.handle_key(Key::Right);
    app.handle_key(Key::Right);
    assert_eq!(app.cursor, 4);
    match app.handle_key(Key::Enter) {
        KeyOutcome::Chat(m) => assert_eq!(m, "hllo"),
        other => panic!("unexpected {:?}", other),
    }
    assert_eq!(app.input, "");
    assert_eq!(app.cursor, 0);
    assert_eq!(app.messages.len(), 1);
    assert_eq!(app.messages[0].role, MsgRole::User);
}

#[test]
fn enter_commands() {
    let mut app = App::new(Lang::Zh);
    assert_eq!(app.handle_key(Key::Enter), KeyOutcome::Continue);
    type_text(&mut app, "/status");
    assert_eq!(app.handle_key(Key::Enter), KeyOutcome::Command("/status".into()));
    type_text(&mut app, "hi");
    app.handle_key(Key::Enter);
    type_text(&mut app, "/clear");
    assert_eq!(app.handle_key(Key::Enter), KeyOutcome::Continue);
    assert!(app.messages.is_empty());
    type_text(&mut app, "/exit");
    assert_eq!(app.handle_key(Key::Enter), KeyOutcome::Quit);
    assert_eq!(app.messages.back().unwrap().content, "会话结束");
    assert_eq!(app.handle_key(Key::Esc), KeyOutcome::Quit);
}

#[test]
fn scrolling_and_panels() {
    let mut app = App::new(Lang::En);
    for i in 0..10 {
        app.add_msg(MsgRole::System, format!("m{i}"));
    }
    app.handle_key(Key::PageUp);
    assert_eq!(app.scroll, 5);
    app.handle_key(Key::PageUp);
    app.handle_key(Key::Up);
    assert_eq!(app.scroll, 9);
    app.handle_key(Key::PageDown);
    assert_eq!(app.scroll, 4);
    app.handle_key(Key::Down);
    assert_eq!(app.scroll, 3);
    app.handle_key(Key::Tab);
    assert_eq!(app.panel, Panel::Scenes);
    app.handle_key(Key::BackTab);
    app.handle_key(Key::BackTab);
    assert_eq!(app.panel, Panel::Status);
}

#[test]
fn log_keeps_at_most_201_messages() {
    let mut app = App::new(Lang::En);
    for i in 0..250 {
        app.add_msg(MsgRole::Assistant, format!("{i}"));
    }
    assert_eq!(app.messages.len(), 201);
    assert_eq!(app.messages[0].content, "49");
}

#[test]
fn command_routes() {
    match route_command("/scenes") {
        CommandRoute::Fetch { path, read_failed, unreachable } => {
            assert_eq!(path, "/api/scenes");
            assert_eq!(read_failed, "场景列表获取失败");
            assert_eq!(unreachable, "⚠️ API 不可用，请启动 daemon");
        }
        _ => panic!(),
    }
    match route_command("/mem foo") {
        CommandRoute::Fetch { path, .. } => assert_eq!(path, "/api/memory/search?q=*"),
        _ => panic!(),
    }
    assert_eq!(route_command("/scene-x"), CommandRoute::Unknown("未知命令: /scene-x".into()));
}

#[test]
fn i18n_texts() {
    let zh = I18n::new(Lang::Zh);
    let en = I18n::new(Lang::En);
    assert_eq!(zh.dispatch_header(3), "🧠 派遣 3 个子Agent");
    assert_eq!(en.dispatch_header(12), "🧠 Dispatching 12 sub-agents");
    assert_eq!(en.init_ok("/x"), "✅ Config created: /x");
    assert_eq!(Lang::from_locale("zh_CN.UTF-8"), Lang::Zh);
    assert_eq!(Lang::from_locale("C"), Lang::En);
    assert_eq!(zh.title(), "🧠 Overmind");
}

#[test]
fn chat_area_shows_the_newest_messages_that_fit() {
    let mut app = App::new(Lang::En);
    app.messages.clear();
    for i in 0..5 {
        app.add_msg(MsgRole::User, format!("m{i}"));
    }
    let shown: Vec<&str> = app.visible_messages(5).iter().map(|m| m.content.as_str()).collect();
    assert_eq!(shown, vec!["m2", "m3", "m4"]);
    app.scroll = 1;
    let shown: Vec<&str> = app.visible_messages(5).iter().map(|m| m.content.as_str()).collect();
    assert_eq!(shown, vec!["m1", "m2", "m3"]);
    app.scroll = 9;
    assert!(app.visible_messages(5).is_empty());
    app.scroll = 0;
    assert!(app.visible_messages(1).is_empty());
    assert_eq!(app.visible_messages(100).len(), 5);
    assert_eq!(app.panel_index(), 0);
    app.panel = Panel::Status;
    assert_eq!(app.panel_index(), 3);
}

#[test]
fn cursor_moves_by_bytes() {
    let mut app = App::new(Lang::En);
    app.handle_key(Key::Char('é'));
    assert_eq!(app.cursor, 1);
    app.handle_key(Key::Right);
    assert_eq!(app.cursor, 2);
    app.handle_key(Key::Char('x'));
    assert_eq!((app.input.as_str(), app.cursor), ("éx", 3));
    app.handle_key(Key::Right);
    assert_eq!(app.cursor, 3);
    app.handle_key(Key::Left);
    app.handle_key(Key::Left);
    app.handle_key(Key::Left);
    app.handle_key(Key::Char('a'));
    assert_eq!((app.input.as_str(), app.cursor), ("aéx", 1));
    app.handle_key(Key::Backspace);
    assert_eq!((app.input.as_str(), app.cursor), ("éx", 0));
}
