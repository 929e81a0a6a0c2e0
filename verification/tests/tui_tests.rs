use bution::chat::ChatRole;
use bution::cluster::{NodeRole, NodeStatus, NodeSummary};
use bution::locale::Language;
use bution::storage::Settings;
use bution::tui::{App, AppAction, KeyCode, KeyEvent, KeyModifiers, Screen, SCREEN_COUNT};

const NONE: KeyModifiers =
    KeyModifiers { shift: false, control: false, alt: false, super_key: false, hyper: false, meta: false };
const SHIFT: KeyModifiers =
    KeyModifiers { shift: true, control: false, alt: false, super_key: false, hyper: false, meta: false };
const CONTROL: KeyModifiers =
    KeyModifiers { shift: false, control: true, alt: false, super_key: false, hyper: false, meta: false };

fn make_key(code: KeyCode, modifiers: KeyModifiers) -> KeyEvent {
    KeyEvent { code, modifiers }
}

fn test_app() -> App {
    App {
        language: Language::English,
        running: true,
        screen_index: 0,
        settings: Settings::fresh(),
        nodes: Vec::new(),
        model: None,
        logs: std::collections::VecDeque::new(),
        last_error: None,
        pending_pairing: None,
        cluster_running: false,
        chat_messages: Vec::new(),
        chat_input: String::new(),
        chat_streaming: false,
        update_available: None,
    }
}

#[test]
fn arrow_keys_navigate_across_all_screens_including_chat() {
    let mut app = test_app();
    assert_eq!(app.screen(), Screen::Cluster);
    app.handle_key(make_key(KeyCode::Right, NONE));
    assert_eq!(app.screen(), Screen::Nodes);
    app.handle_key(make_key(KeyCode::Right, NONE));
    assert_eq!(app.screen(), Screen::Models);
    app.handle_key(make_key(KeyCode::Right, NONE));
    assert_eq!(app.screen(), Screen::Benchmark);
    app.handle_key(make_key(KeyCode::Right, NONE));
    assert_eq!(app.screen(), Screen::Chat);
    app.handle_key(make_key(KeyCode::Right, NONE));
    assert_eq!(app.screen(), Screen::Settings);
    app.handle_key(make_key(KeyCode::Left, NONE));
    assert_eq!(app.screen(), Screen::Chat);
    app.handle_key(make_key(KeyCode::Left, NONE));
    assert_eq!(app.screen(), Screen::Benchmark);
}

#[test]
fn tab_and_backtab_cycle_screens_even_when_chat_has_input() {
    let mut app = test_app();
    app.screen_index = 4;
    app.chat_input = "Hello LLM".into();
    app.handle_key(make_key(KeyCode::Tab, NONE));
    assert_eq!(app.screen(), Screen::Settings);
    app.handle_key(make_key(KeyCode::Tab, NONE));
    assert_eq!(app.screen(), Screen::Cluster);
    app.handle_key(make_key(KeyCode::BackTab, SHIFT));
    assert_eq!(app.screen(), Screen::Settings);
    app.handle_key(make_key(KeyCode::BackTab, SHIFT));
    assert_eq!(app.screen(), Screen::Chat);
}

#[test]
fn chat_esc_clears_input_then_navigates_back() {
    let mut app = test_app();
    app.screen_index = 4;
    app.chat_input = "draft".into();
    app.handle_key(make_key(KeyCode::Esc, NONE));
    assert!(app.chat_input.is_empty());
    assert_eq!(app.screen(), Screen::Chat);
    app.handle_key(make_key(KeyCode::Esc, NONE));
    assert_eq!(app.screen(), Screen::Benchmark);
}

#[test]
fn role_changes_only_on_idle_cluster_page() {
    let mut app = test_app();
    for index in [1, 2, 3, 5] {
        app.screen_index = index;
        app.handle_key(make_key(KeyCode::Char(' '), NONE));
        assert_eq!(app.settings.role, NodeRole::Automatic);
    }
    app.screen_index = 0;
    app.cluster_running = true;
    app.handle_key(make_key(KeyCode::Char(' '), NONE));
    assert_eq!(app.settings.role, NodeRole::Automatic);
    app.cluster_running = false;
    let action = app.handle_key(make_key(KeyCode::Char(' '), NONE));
    assert_eq!(app.settings.role, NodeRole::Main);
    assert_eq!(action, AppAction::SaveSettings);
}

#[test]
fn chat_send_requires_started_model() {
    let mut app = test_app();
    app.screen_index = 4;
    app.chat_input = "Hello".into();
    assert!(matches!(app.handle_key(make_key(KeyCode::Enter, NONE)), AppAction::Nothing));
    assert!(!app.chat_streaming);
    app.cluster_running = true;
    assert!(matches!(app.handle_key(make_key(KeyCode::Enter, NONE)), AppAction::SendChat(_)));
    assert!(app.chat_streaming);
}

#[test]
fn clear_chat_does_not_discard_an_active_stream() {
    let mut app = test_app();
    app.screen_index = 4;
    app.chat_streaming = true;
    app.chat_input = "draft".into();
    app.handle_key(make_key(KeyCode::Char('n'), CONTROL));
    assert_eq!(app.chat_input, "draft");
    assert!(app.chat_streaming);
}

#[test]
fn model_lifecycle_messages_follow_ui_language() {
    for language in [Language::English, Language::Russian] {
        let mut app = test_app();
        app.language = language;
        app.cluster_started();
        assert_eq!(app.logs.back().unwrap(), language.text("Model process started", "Процесс модели запущен"));
        app.cluster_stopped();
        assert_eq!(app.logs.back().unwrap(), language.text("Model stopped", "Модель остановлена"));
    }
}

fn help(app: &App) -> String {
    app.help_hints().join("\n")
}

#[test]
fn hints_match_page_and_available_actions() {
    let mut app = test_app();
    for index in 0..SCREEN_COUNT {
        app.screen_index = index;
        assert_eq!(help(&app).contains("Space role"), app.screen() == Screen::Cluster);
        assert!(!help(&app).contains("Enter start"));
        assert!(!help(&app).contains("Enter send"));
    }
    app.screen_index = 0;
    app.cluster_running = true;
    assert!(help(&app).contains("Enter stop"));
    assert!(!help(&app).contains("Space"));
    app.screen_index = 4;
    assert!(help(&app).contains("Enter send"));
    app.chat_streaming = true;
    assert!(!help(&app).contains("Enter send"));
    assert!(!help(&app).contains("Ctrl+N"));
}

#[test]
fn ctrl_q_quits_from_any_page() {
    let mut app = test_app();
    app.screen_index = 4;
    app.handle_key(make_key(KeyCode::Char('q'), CONTROL));
    assert!(!app.running);
}

#[test]
fn streamed_tokens_build_the_assistant_reply() {
    let mut app = test_app();
    app.screen_index = 4;
    app.cluster_running = true;
    app.chat_input = "Hi".into();
    app.handle_key(make_key(KeyCode::Enter, NONE));
    app.chat_token("Hel");
    app.chat_token("lo");
    app.chat_finished();
    assert!(!app.chat_streaming);
    let last = app.chat_messages.last().unwrap();
    assert_eq!(last.role, ChatRole::Assistant);
    assert_eq!(last.content, "Hello");
}

#[test]
fn log_keeps_the_newest_hundred_lines() {
    let mut app = test_app();
    for i in 0..150 {
        app.push_log(format!("line {i}"));
    }
    assert_eq!(app.logs.len(), 100);
    assert_eq!(app.logs[0], "line 50");
    assert_eq!(app.logs[99], "line 149");
}

#[test]
fn start_shows_this_node_and_the_ready_log() {
    let local = NodeSummary {
        id: 7,
        name: "here".into(),
        role: NodeRole::Automatic,
        status: NodeStatus::Ready,
        addresses: Vec::new(),
        control_port: 31750,
        rpc_port: 50052,
        available_memory_bytes: 1,
        compute_backend: "CPU".into(),
    };
    let app = App::start(Language::English, Settings::fresh(), local, None);
    assert_eq!(app.nodes.len(), 1);
    assert_eq!(app.logs, ["BUTION is ready", "Searching for nodes on the LAN…"]);
    assert_eq!(app.screen(), Screen::Cluster);
}

#[test]
fn a_pairing_request_takes_over_the_hints() {
    let mut app = test_app();
    app.pairing_requested(
        "Windows-PC".into(),
        bution::network::SocketAddress { ip: bution::network::IpAddress::V4(0xc0a8_0102), port: 31750 },
        "123456".into(),
    );
    assert!(app.pending_pairing.as_ref().unwrap().accept_selected);
    assert!(help(&app).contains("Esc reject"));
    assert!(!help(&app).contains("Space role"));
}

#[test]
fn hints_fit_the_smallest_terminal_in_both_languages() {
    let mut app = test_app();
    for language in [Language::English, Language::Russian] {
        app.language = language;
        for index in 0..SCREEN_COUNT {
            app.screen_index = index;
            for hint in app.help_hints() {
                assert!(hint.chars().count() <= 60, "{hint}");
            }
            assert!(help(&app).contains(language.text("quit", "выход")));
            if language == Language::English {
                assert!(!help(&app).chars().any(|ch| ('\u{0400}'..='\u{04ff}').contains(&ch)));
            }
        }
    }
}

#[test]
fn cluster_status_follows_model_role_and_process() {
    let mut app = test_app();
    assert_eq!(app.cluster_status(), "Select a model to get started");
    app.settings.role = NodeRole::Worker;
    assert_eq!(app.cluster_status(), "Waiting for the main computer");
    app.cluster_running = true;
    assert_eq!(app.cluster_status(), "Model process started");
    app.language = Language::Russian;
    assert_eq!(app.cluster_status(), "Процесс модели запущен");
}
