//! Terminal UI state: pages, keyboard navigation, the pairing dialog, the
//! chat editor, and the hints shown for each page.
use std::collections::VecDeque;
use vstd::prelude::*;

use crate::chat::{messages_view, ChatMessage, ChatRole};
use crate::cluster::{NodeRole, NodeStatus, NodeSummary, PairDecision};
use crate::discovery::DiscoveredNode;
use crate::locale::Language;
use crate::models::ModelInfo;
use crate::network::SocketAddress;
use crate::storage::Settings;
use crate::text::{chars_of, concat3, joined, pop_char, push_char, string_from_chars, trim, trimmed};

verus! {

/// The number of pages.
pub const SCREEN_COUNT: usize = 6;

#[derive(Debug, Clone, Copy, PartialEq, Eq, Structural)]
pub enum Screen {
    Cluster,
    Nodes,
    Models,
    Benchmark,
    Chat,
    Settings,
}

pub open spec fn screen_at(index: int) -> Screen {
    if index == 0 {
        Screen::Cluster
    } else if index == 1 {
        Screen::Nodes
    } else if index == 2 {
        Screen::Models
    } else if index == 3 {
        Screen::Benchmark
    } else if index == 4 {
        Screen::Chat
    } else {
        Screen::Settings
    }
}

impl Screen {
    /// The page at a position of the page bar.
    pub fn at(index: usize) -> (screen: Screen)
        requires
            index < SCREEN_COUNT,
        ensures
            screen == screen_at(index as int),
    {
        if index == 0 {
            Screen::Cluster
        } else if index == 1 {
            Screen::Nodes
        } else if index == 2 {
            Screen::Models
        } else if index == 3 {
            Screen::Benchmark
        } else if index == 4 {
            Screen::Chat
        } else {
            Screen::Settings
        }
    }

    /// The page title in the UI language.
    pub fn label(self, language: Language) -> (label: &'static str)
        ensures
            label@ == (match (self, language) {
                (Screen::Cluster, Language::English) => "Cluster"@,
                (Screen::Nodes, Language::English) => "Nodes"@,
                (Screen::Models, Language::English) => "Model"@,
                (Screen::Benchmark, Language::English) => "Network"@,
                (Screen::Chat, Language::English) => "Chat"@,
                (Screen::Settings, Language::English) => "Settings"@,
                (Screen::Cluster, Language::Russian) => "Кластер"@,
                (Screen::Nodes, Language::Russian) => "Узлы"@,
                (Screen::Models, Language::Russian) => "Модель"@,
                (Screen::Benchmark, Language::Russian) => "Сеть"@,
                (Screen::Chat, Language::Russian) => "Чат"@,
                (Screen::Settings, Language::Russian) => "Настройки"@,
            }),
    {
        match self {
            Screen::Cluster => language.text("Cluster", "Кластер"),
            Screen::Nodes => language.text("Nodes", "Узлы"),
            Screen::Models => language.text("Model", "Модель"),
            Screen::Benchmark => language.text("Network", "Сеть"),
            Screen::Chat => language.text("Chat", "Чат"),
            Screen::Settings => language.text("Settings", "Настройки"),
        }
    }
}

/// A key of the keyboard.
#[derive(Debug, Clone, Copy, PartialEq, Eq, Structural)]
pub enum KeyCode {
    Char(char),
    Enter,
    Tab,
    BackTab,
    Esc,
    Backspace,
    Left,
    Right,
    Up,
    Down,
    Other,
}

/// The modifier keys held with a key.
#[derive(Debug, Clone, Copy, PartialEq, Eq, Structural)]
pub struct KeyModifiers {
    pub shift: bool,
    pub control: bool,
    pub alt: bool,
    pub super_key: bool,
    pub hyper: bool,
    pub meta: bool,
}

impl KeyModifiers {
    /// Control and no other modifier.
    pub open spec fn only_control(self) -> bool {
        self.control && !self.shift && !self.alt && !self.super_key && !self.hyper && !self.meta
    }
}

#[derive(Debug, Clone, Copy, PartialEq, Eq, Structural)]
pub struct KeyEvent {
    pub code: KeyCode,
    pub modifiers: KeyModifiers,
}

/// A pairing request waiting for the user's decision.
#[derive(Debug, PartialEq, Eq)]
pub struct PendingPairing {
    pub name: String,
    pub address: SocketAddress,
    pub code: String,
    pub accept_selected: bool,
}

/// Commands for the background runtime.
#[derive(Debug, PartialEq, Eq)]
pub enum RuntimeCommand {
    /// Start the model at this path.
    StartModel(String),
    StopModel,
    Shutdown,
}

/// What the caller must do after a key press.
#[derive(Debug, PartialEq, Eq)]
pub enum AppAction {
    Nothing,
    Runtime(RuntimeCommand),
    /// Send this conversation to the model and stream the reply.
    SendChat(Vec<ChatMessage>),
    /// Answer the pending pairing request.
    AnswerPairing(PairDecision),
    /// Persist the settings (the node role changed), then report with `role_saved`.
    SaveSettings,
    /// Forget the measured generation speed.
    ClearGenerationSpeed,
}

/// The UI state that keyboard input and runtime events act on.
pub struct App {
    pub language: Language,
    pub running: bool,
    pub screen_index: usize,
    pub settings: Settings,
    pub nodes: Vec<NodeSummary>,
    pub model: Option<ModelInfo>,
    pub logs: VecDeque<String>,
    pub last_error: Option<String>,
    pub pending_pairing: Option<PendingPairing>,
    pub cluster_running: bool,
    pub chat_messages: Vec<ChatMessage>,
    pub chat_input: String,
    pub chat_streaming: bool,
    pub update_available: Option<String>,
}

/// The observable part of a node summary.
pub struct NodeView {
    pub id: u128,
    pub name: Seq<char>,
    pub role: NodeRole,
    pub status: crate::cluster::NodeStatus,
    pub addresses: Seq<crate::network::IpAddress>,
    pub control_port: u16,
    pub rpc_port: u16,
    pub available_memory_bytes: u64,
    pub compute_backend: Seq<char>,
}

pub open spec fn node_view(n: NodeSummary) -> NodeView {
    NodeView {
        id: n.id,
        name: n.name@,
        role: n.role,
        status: n.status,
        addresses: n.addresses@,
        control_port: n.control_port,
        rpc_port: n.rpc_port,
        available_memory_bytes: n.available_memory_bytes,
        compute_backend: n.compute_backend@,
    }
}

pub open spec fn nodes_view(nodes: Seq<NodeSummary>) -> Seq<NodeView> {
    Seq::new(nodes.len(), |i: int| node_view(nodes[i]))
}

pub open spec fn strings_view(strings: Seq<String>) -> Seq<Seq<char>> {
    Seq::new(strings.len(), |i: int| strings[i]@)
}

pub open spec fn opt_view(s: Option<String>) -> Option<Seq<char>> {
    match s {
        Some(v) => Some(v@),
        None => None,
    }
}

/// The abstract UI state.
pub struct AppView {
    pub language: Language,
    pub running: bool,
    pub screen_index: int,
    pub settings: Settings,
    pub nodes: Seq<NodeView>,
    pub model: Option<ModelInfo>,
    pub logs: Seq<Seq<char>>,
    pub last_error: Option<Seq<char>>,
    pub pending_pairing: Option<PendingPairing>,
    pub cluster_running: bool,
    pub messages: Seq<(ChatRole, Seq<char>)>,
    pub input: Seq<char>,
    pub streaming: bool,
    pub update_available: Option<Seq<char>>,
}

/// The abstract action.
pub enum ActionView {
    Nothing,
    StartModel(Seq<char>),
    StopModel,
    Shutdown,
    SendChat(Seq<(ChatRole, Seq<char>)>),
    AnswerPairing(PairDecision),
    SaveSettings,
    ClearGenerationSpeed,
}

pub open spec fn action_view(a: AppAction) -> ActionView {
    match a {
        AppAction::Nothing => ActionView::Nothing,
        AppAction::Runtime(RuntimeCommand::StartModel(p)) => ActionView::StartModel(p@),
        AppAction::Runtime(RuntimeCommand::StopModel) => ActionView::StopModel,
        AppAction::Runtime(RuntimeCommand::Shutdown) => ActionView::Shutdown,
        AppAction::SendChat(m) => ActionView::SendChat(messages_view(m@)),
        AppAction::AnswerPairing(d) => ActionView::AnswerPairing(d),
        AppAction::SaveSettings => ActionView::SaveSettings,
        AppAction::ClearGenerationSpeed => ActionView::ClearGenerationSpeed,
    }
}

impl View for App {
    type V = AppView;

    open spec fn view(&self) -> AppView {
        AppView {
            language: self.language,
            running: self.running,
            screen_index: self.screen_index as int,
            settings: self.settings,
            nodes: nodes_view(self.nodes@),
            model: self.model,
            logs: strings_view(self.logs@),
            last_error: opt_view(self.last_error),
            pending_pairing: self.pending_pairing,
            cluster_running: self.cluster_running,
            messages: messages_view(self.chat_messages@),
            input: self.chat_input@,
            streaming: self.chat_streaming,
            update_available: opt_view(self.update_available),
        }
    }
}

/// The most log lines kept.
pub const LOG_CAPACITY: usize = 100;

/// The log after appending `message`, keeping only the newest lines.
pub open spec fn with_log(logs: Seq<Seq<char>>, message: Seq<char>) -> Seq<Seq<char>> {
    let all = logs.push(message);
    if all.len() > LOG_CAPACITY {
        all.skip(all.len() - LOG_CAPACITY)
    } else {
        all
    }
}

proof fn lemma_with_log_ends_with(logs: Seq<Seq<char>>, message: Seq<char>)
    ensures
        with_log(logs, message).len() > 0,
        with_log(logs, message).last() == message,
{
    let all = logs.push(message);
    if all.len() > LOG_CAPACITY {
        let kept = all.skip(all.len() - LOG_CAPACITY);
        assert(kept.last() == all.last());
    }
}

/// English or Russian text.
pub open spec fn lang_text(language: Language, english: Seq<char>, russian: Seq<char>) -> Seq<char> {
    if language == Language::English {
        english
    } else {
        russian
    }
}

/// One page forward, stopping at the last page.
pub open spec fn next_screen(i: int) -> int {
    if i + 1 < SCREEN_COUNT {
        i + 1
    } else {
        SCREEN_COUNT - 1
    }
}

/// One page back, stopping at the first page.
pub open spec fn previous_screen(i: int) -> int {
    if i == 0 {
        0
    } else {
        i - 1
    }
}

/// One page forward, wrapping around.
pub open spec fn cycle_forward(i: int) -> int {
    (i + 1) % (SCREEN_COUNT as int)
}

/// One page back, wrapping around.
pub open spec fn cycle_backward(i: int) -> int {
    if i == 0 {
        SCREEN_COUNT - 1
    } else {
        i - 1
    }
}

/// Automatic → Main → Worker → Automatic.
pub open spec fn next_role(role: NodeRole) -> NodeRole {
    match role {
        NodeRole::Automatic => NodeRole::Main,
        NodeRole::Main => NodeRole::Worker,
        NodeRole::Worker => NodeRole::Automatic,
    }
}

pub open spec fn is_one_of(code: KeyCode, a: char, b: char) -> bool {
    code == KeyCode::Char(a) || code == KeyCode::Char(b)
}

pub open spec fn is_back(code: KeyCode) -> bool {
    code == KeyCode::Left || code == KeyCode::Up
}

pub open spec fn is_forward(code: KeyCode) -> bool {
    code == KeyCode::Right || code == KeyCode::Down
}

pub open spec fn at_screen(s: AppView, i: int) -> AppView {
    AppView { screen_index: i, ..s }
}

/// The pairing dialog owns the keyboard while a request is pending.
pub open spec fn pairing_step(s: AppView, p: PendingPairing, code: KeyCode) -> (AppView, ActionView) {
    if code == KeyCode::Left || code == KeyCode::Right || code == KeyCode::Char(' ') {
        (
            AppView { pending_pairing: Some(PendingPairing { accept_selected: !p.accept_selected, ..p }), ..s },
            ActionView::Nothing,
        )
    } else if code == KeyCode::Enter {
        let decision = if p.accept_selected { PairDecision::Accept } else { PairDecision::Reject };
        let message = if p.accept_selected {
            lang_text(s.language, "Pairing accepted"@, "Подключение разрешено"@)
        } else {
            lang_text(s.language, "Pairing rejected"@, "Подключение отклонено"@)
        };
        (
            AppView { logs: with_log(s.logs, message), pending_pairing: None, ..s },
            ActionView::AnswerPairing(decision),
        )
    } else if code == KeyCode::Esc || is_one_of(code, 'q', 'Q') {
        (AppView { pending_pairing: None, ..s }, ActionView::AnswerPairing(PairDecision::Reject))
    } else {
        (s, ActionView::Nothing)
    }
}

/// The chat page: the editor takes characters, arrows move between pages
/// only when the input is empty or with Ctrl/Alt.
pub open spec fn chat_step(s: AppView, key: KeyEvent) -> (AppView, ActionView) {
    let m = key.modifiers;
    let code = key.code;
    if m.only_control() && (is_one_of(code, 'q', 'Q') || is_one_of(code, 'c', 'C')) {
        (AppView { running: false, ..s }, ActionView::Nothing)
    } else if m.only_control() && (is_one_of(code, 'n', 'N') || is_one_of(code, 'l', 'L')) && !s.streaming {
        (
            AppView { messages: Seq::empty(), input: Seq::empty(), streaming: false, ..s },
            ActionView::ClearGenerationSpeed,
        )
    } else if code == KeyCode::Tab {
        (at_screen(s, cycle_forward(s.screen_index)), ActionView::Nothing)
    } else if code == KeyCode::BackTab {
        (at_screen(s, cycle_backward(s.screen_index)), ActionView::Nothing)
    } else if code == KeyCode::Esc {
        if s.input.len() > 0 {
            (AppView { input: Seq::empty(), ..s }, ActionView::Nothing)
        } else {
            (at_screen(s, previous_screen(s.screen_index)), ActionView::Nothing)
        }
    } else if is_back(code) && (m.control || m.alt) {
        (at_screen(s, previous_screen(s.screen_index)), ActionView::Nothing)
    } else if is_forward(code) && (m.control || m.alt) {
        (at_screen(s, next_screen(s.screen_index)), ActionView::Nothing)
    } else if is_back(code) && s.input.len() == 0 {
        (at_screen(s, previous_screen(s.screen_index)), ActionView::Nothing)
    } else if is_forward(code) && s.input.len() == 0 {
        (at_screen(s, next_screen(s.screen_index)), ActionView::Nothing)
    } else if code == KeyCode::Backspace && !s.streaming {
        (
            AppView { input: if s.input.len() > 0 { s.input.drop_last() } else { s.input }, ..s },
            ActionView::Nothing,
        )
    } else if code == KeyCode::Enter && s.cluster_running && !s.streaming && trim(s.input).len() > 0 {
        let request = s.messages.push((ChatRole::User, trim(s.input)));
        (
            AppView {
                input: Seq::empty(),
                messages: request.push((ChatRole::Assistant, Seq::empty())),
                streaming: true,
                ..s
            },
            ActionView::SendChat(request),
        )
    } else if code is Char && !m.control && !s.streaming {
        (AppView { input: s.input.push(code->Char_0), ..s }, ActionView::Nothing)
    } else {
        (s, ActionView::Nothing)
    }
}

/// Every page but chat.
pub open spec fn page_step(s: AppView, key: KeyEvent) -> (AppView, ActionView) {
    let code = key.code;
    if is_one_of(code, 'q', 'Q') {
        (AppView { running: false, ..s }, ActionView::Nothing)
    } else if code == KeyCode::Tab {
        (at_screen(s, cycle_forward(s.screen_index)), ActionView::Nothing)
    } else if code == KeyCode::BackTab {
        (at_screen(s, cycle_backward(s.screen_index)), ActionView::Nothing)
    } else if is_back(code) {
        (at_screen(s, previous_screen(s.screen_index)), ActionView::Nothing)
    } else if is_forward(code) {
        (at_screen(s, next_screen(s.screen_index)), ActionView::Nothing)
    } else if code == KeyCode::Esc {
        (at_screen(s, 0), ActionView::Nothing)
    } else if code == KeyCode::Enter && s.screen_index == 0 {
        if s.cluster_running {
            (s, ActionView::StopModel)
        } else if s.settings.role == NodeRole::Worker {
            (s, ActionView::Nothing)
        } else {
            match s.model {
                Some(model) => (
                    AppView {
                        last_error: None,
                        logs: with_log(
                            s.logs,
                            lang_text(s.language, "Starting model"@, "Запуск модели"@) + ": "@ + model.name@,
                        ),
                        ..s
                    },
                    ActionView::StartModel(model.path@),
                ),
                None => (
                    AppView {
                        logs: with_log(
                            s.logs,
                            lang_text(
                                s.language,
                                "Select a GGUF model with --model first"@,
                                "Сначала выберите модель через --model"@,
                            ),
                        ),
                        ..s
                    },
                    ActionView::Nothing,
                ),
            }
        }
    } else if (code == KeyCode::Char(' ') || is_one_of(code, 'r', 'R')) && s.screen_index == 0
        && !s.cluster_running {
        let role = next_role(s.settings.role);
        (
            AppView {
                settings: Settings { role, ..s.settings },
                nodes: if s.nodes.len() > 0 { s.nodes.update(0, NodeView { role, ..s.nodes[0] }) } else { s.nodes },
                ..s
            },
            ActionView::SaveSettings,
        )
    } else {
        (s, ActionView::Nothing)
    }
}

/// The effect of one key press.
pub open spec fn step(s: AppView, key: KeyEvent) -> (AppView, ActionView) {
    if key.modifiers.control && is_one_of(key.code, 'q', 'Q') {
        (AppView { running: false, ..s }, ActionView::Nothing)
    } else {
        match s.pending_pairing {
            Some(p) => pairing_step(s, p, key.code),
            None => if s.screen_index == 4 {
                chat_step(s, key)
            } else {
                page_step(s, key)
            },
        }
    }
}

impl App {
    /// The state the interface opens with: the first page, this node as
    /// the only node, the last model if it is still valid, and two log
    /// lines telling that BUTION is ready and is searching the LAN.
    pub fn start(language: Language, settings: Settings, local_node: NodeSummary, model: Option<ModelInfo>) -> (app: App)
        ensures
            app@ == (AppView {
                language,
                running: true,
                screen_index: 0,
                settings,
                nodes: seq![node_view(local_node)],
                model,
                logs: seq![
                    lang_text(language, "BUTION is ready"@, "BUTION готов к работе"@),
                    lang_text(language, "Searching for nodes on the LAN…"@, "Поиск узлов в локальной сети…"@),
                ],
                last_error: None,
                pending_pairing: None,
                cluster_running: false,
                messages: Seq::empty(),
                input: Seq::empty(),
                streaming: false,
                update_available: None,
            }),
    {
        let mut logs: VecDeque<String> = VecDeque::new();
        logs.push_back(language.text("BUTION is ready", "BUTION готов к работе").to_owned());
        logs.push_back(language.text("Searching for nodes on the LAN…", "Поиск узлов в локальной сети…").to_owned());
        let mut nodes: Vec<NodeSummary> = Vec::new();
        nodes.push(local_node);
        let app = App {
            language,
            running: true,
            screen_index: 0,
            settings,
            nodes,
            model,
            logs,
            last_error: None,
            pending_pairing: None,
            cluster_running: false,
            chat_messages: Vec::new(),
            chat_input: String::new(),
            chat_streaming: false,
            update_available: None,
        };
        proof {
            assert(app@.nodes =~= seq![node_view(local_node)]);
            assert(app@.logs =~= seq![
                lang_text(language, "BUTION is ready"@, "BUTION готов к работе"@),
                lang_text(language, "Searching for nodes on the LAN…"@, "Поиск узлов в локальной сети…"@),
            ]);
            assert(app@.messages =~= Seq::empty());
            assert(app@.input =~= Seq::<char>::empty());
        }
        app
    }

    pub fn screen(&self) -> (screen: Screen)
        requires
            self.screen_index < SCREEN_COUNT,
        ensures
            screen == screen_at(self.screen_index as int),
    {
        Screen::at(self.screen_index)
    }

    /// The headline of the cluster page: the model is running, a worker
    /// waits for the main computer, a model is ready to start, or none is
    /// selected yet.
    pub fn cluster_status(&self) -> (status: &'static str)
        ensures
            status@ == (if self.cluster_running {
                if self.language == Language::English { "Model process started"@ } else { "Процесс модели запущен"@ }
            } else if self.settings.role == NodeRole::Worker {
                if self.language == Language::English {
                    "Waiting for the main computer"@
                } else {
                    "Ожидание основного компьютера"@
                }
            } else if self.model is Some {
                if self.language == Language::English { "Ready to start"@ } else { "Готов к запуску"@ }
            } else {
                if self.language == Language::English {
                    "Select a model to get started"@
                } else {
                    "Выберите модель для запуска"@
                }
            }),
    {
        let l = self.language;
        if self.cluster_running {
            l.text("Model process started", "Процесс модели запущен")
        } else if self.settings.role == NodeRole::Worker {
            l.text("Waiting for the main computer", "Ожидание основного компьютера")
        } else if self.model.is_some() {
            l.text("Ready to start", "Готов к запуску")
        } else {
            l.text("Select a model to get started", "Выберите модель для запуска")
        }
    }

    /// Appends a log line, keeping the newest hundred.
    pub fn push_log(&mut self, message: String)
        ensures
            final(self)@ == (AppView { logs: with_log(old(self)@.logs, message@), ..old(self)@ }),
    {
        let ghost start = strings_view(self.logs@);
        let mut logs: VecDeque<String> = VecDeque::new();
        std::mem::swap(&mut logs, &mut self.logs);
        logs.push_back(message);
        proof {
            assert(strings_view(logs@) =~= start.push(message@));
        }
        if logs.len() > LOG_CAPACITY {
            let extra = logs.len() - LOG_CAPACITY;
            let mut removed: usize = 0;
            while removed < extra
                invariant
                    extra == start.len() + 1 - LOG_CAPACITY,
                    removed <= extra,
                    logs@.len() == start.len() + 1 - removed,
                    strings_view(logs@) == start.push(message@).skip(removed as int),
                decreases extra - removed,
            {
                let ghost before = strings_view(logs@);
                let _ = logs.pop_front();
                proof {
                    assert(strings_view(logs@) =~= before.drop_first());
                    assert(start.push(message@).skip(removed + 1) =~= start.push(message@).skip(removed as int).drop_first());
                }
                removed += 1;
            }
        }
        self.logs = logs;
    }

    /// Handles one key press and says what the caller must do.
    pub fn handle_key(&mut self, key: KeyEvent) -> (action: AppAction)
        requires
            old(self).screen_index < SCREEN_COUNT,
        ensures
            (final(self)@, action_view(action)) == step(old(self)@, key),
            final(self).screen_index < SCREEN_COUNT,
    {
        let code = key.code;
        let m = key.modifiers;
        if m.control && (code == KeyCode::Char('q') || code == KeyCode::Char('Q')) {
            self.running = false;
            return AppAction::Nothing;
        }
        if self.pending_pairing.is_some() {
            return self.handle_pairing_key(code);
        }
        if self.screen_index == 4 {
            return self.handle_chat_key(key);
        }
        self.handle_page_key(key)
    }

    fn handle_pairing_key(&mut self, code: KeyCode) -> (action: AppAction)
        requires
            old(self).pending_pairing is Some,
            old(self).screen_index < SCREEN_COUNT,
        ensures
            (final(self)@, action_view(action)) == pairing_step(
                old(self)@,
                old(self).pending_pairing->Some_0,
                code,
            ),
            final(self).screen_index == old(self).screen_index,
    {
        let pairing = self.pending_pairing.take().unwrap();
        if code == KeyCode::Left || code == KeyCode::Right || code == KeyCode::Char(' ') {
            self.pending_pairing = Some(PendingPairing { accept_selected: !pairing.accept_selected, ..pairing });
            AppAction::Nothing
        } else if code == KeyCode::Enter {
            let decision = if pairing.accept_selected { PairDecision::Accept } else { PairDecision::Reject };
            let message = if pairing.accept_selected {
                self.language.text("Pairing accepted", "Подключение разрешено")
            } else {
                self.language.text("Pairing rejected", "Подключение отклонено")
            };
            self.push_log(String::from_str(message));
            AppAction::AnswerPairing(decision)
        } else if code == KeyCode::Esc || code == KeyCode::Char('q') || code == KeyCode::Char('Q') {
            AppAction::AnswerPairing(PairDecision::Reject)
        } else {
            self.pending_pairing = Some(pairing);
            AppAction::Nothing
        }
    }

    fn handle_chat_key(&mut self, key: KeyEvent) -> (action: AppAction)
        requires
            old(self).pending_pairing is None,
            old(self).screen_index == 4,
        ensures
            (final(self)@, action_view(action)) == chat_step(old(self)@, key),
            final(self).screen_index < SCREEN_COUNT,
    {
        let code = key.code;
        let m = key.modifiers;
        let only_control = m.control && !m.shift && !m.alt && !m.super_key && !m.hyper && !m.meta;
        let is_char = match code {
            KeyCode::Char(_) => true,
            _ => false,
        };
        let back = code == KeyCode::Left || code == KeyCode::Up;
        let forward = code == KeyCode::Right || code == KeyCode::Down;
        if only_control && (code == KeyCode::Char('q') || code == KeyCode::Char('Q') || code == KeyCode::Char('c')
            || code == KeyCode::Char('C')) {
            self.running = false;
            AppAction::Nothing
        } else if only_control && (code == KeyCode::Char('n') || code == KeyCode::Char('N') || code
            == KeyCode::Char('l') || code == KeyCode::Char('L')) && !self.chat_streaming {
            self.chat_messages.clear();
            self.chat_input = String::new();
            self.chat_streaming = false;
            proof {
                assert(messages_view(self.chat_messages@) =~= Seq::<(ChatRole, Seq<char>)>::empty());
            }
            AppAction::ClearGenerationSpeed
        } else if code == KeyCode::Tab {
            self.screen_index = (self.screen_index + 1) % SCREEN_COUNT;
            AppAction::Nothing
        } else if code == KeyCode::BackTab {
            self.screen_index = if self.screen_index == 0 { SCREEN_COUNT - 1 } else { self.screen_index - 1 };
            AppAction::Nothing
        } else if code == KeyCode::Esc {
            if !self.chat_input.as_str().is_empty() {
                self.chat_input = String::new();
            } else {
                self.screen_index = self.screen_index - 1;
            }
            AppAction::Nothing
        } else if back && (m.control || m.alt) {
            self.screen_index = self.screen_index - 1;
            AppAction::Nothing
        } else if forward && (m.control || m.alt) {
            self.screen_index = self.screen_index + 1;
            AppAction::Nothing
        } else if back && self.chat_input.as_str().is_empty() {
            self.screen_index = self.screen_index - 1;
            AppAction::Nothing
        } else if forward && self.chat_input.as_str().is_empty() {
            self.screen_index = self.screen_index + 1;
            AppAction::Nothing
        } else if code == KeyCode::Backspace && !self.chat_streaming {
            let _ = pop_char(&mut self.chat_input);
            AppAction::Nothing
        } else if code == KeyCode::Enter && self.cluster_running && !self.chat_streaming && Self::input_has_text(
            &self.chat_input,
        ) {
            let input_chars = chars_of(self.chat_input.as_str());
            let content = string_from_chars(&trimmed(&input_chars));
            self.chat_input = String::new();
            let ghost before = messages_view(self.chat_messages@);
            self.chat_messages.push(ChatMessage { role: ChatRole::User, content });
            let request = clone_messages(&self.chat_messages);
            self.chat_messages.push(ChatMessage { role: ChatRole::Assistant, content: String::new() });
            self.chat_streaming = true;
            proof {
                assert(messages_view(request@) =~= before.push((ChatRole::User, trim(old(self).chat_input@))));
                assert(messages_view(self.chat_messages@) =~= messages_view(request@).push(
                    (ChatRole::Assistant, Seq::<char>::empty()),
                ));
            }
            AppAction::SendChat(request)
        } else if is_char && !m.control && !self.chat_streaming {
            match code {
                KeyCode::Char(c) => push_char(&mut self.chat_input, c),
                _ => {},
            }
            AppAction::Nothing
        } else {
            AppAction::Nothing
        }
    }

    fn input_has_text(input: &String) -> (b: bool)
        ensures
            b == (trim(input@).len() > 0),
    {
        let chars = chars_of(input.as_str());
        trimmed(&chars).len() > 0
    }

    fn handle_page_key(&mut self, key: KeyEvent) -> (action: AppAction)
        requires
            old(self).pending_pairing is None,
            old(self).screen_index < SCREEN_COUNT,
            old(self).screen_index != 4,
        ensures
            (final(self)@, action_view(action)) == page_step(old(self)@, key),
            final(self).screen_index < SCREEN_COUNT,
    {
        let code = key.code;
        if code == KeyCode::Char('q') || code == KeyCode::Char('Q') {
            self.running = false;
            AppAction::Nothing
        } else if code == KeyCode::Tab {
            self.screen_index = (self.screen_index + 1) % SCREEN_COUNT;
            AppAction::Nothing
        } else if code == KeyCode::BackTab {
            self.screen_index = if self.screen_index == 0 { SCREEN_COUNT - 1 } else { self.screen_index - 1 };
            AppAction::Nothing
        } else if code == KeyCode::Left || code == KeyCode::Up {
            self.screen_index = if self.screen_index == 0 { 0 } else { self.screen_index - 1 };
            AppAction::Nothing
        } else if code == KeyCode::Right || code == KeyCode::Down {
            self.screen_index = if self.screen_index + 1 < SCREEN_COUNT { self.screen_index + 1 } else { SCREEN_COUNT - 1 };
            AppAction::Nothing
        } else if code == KeyCode::Esc {
            self.screen_index = 0;
            AppAction::Nothing
        } else if code == KeyCode::Enter && self.screen_index == 0 {
            if self.cluster_running {
                return AppAction::Runtime(RuntimeCommand::StopModel);
            }
            if self.settings.role == NodeRole::Worker {
                return AppAction::Nothing;
            }
            match &self.model {
                Some(model) => {
                    let path = model.path.clone();
                    let label = self.language.text("Starting model", "Запуск модели");
                    let message = concat3(label, ": ", model.name.as_str());
                    self.last_error = None;
                    self.push_log(message);
                    AppAction::Runtime(RuntimeCommand::StartModel(path))
                },
                None => {
                    let message = self.language.text(
                        "Select a GGUF model with --model first",
                        "Сначала выберите модель через --model",
                    );
                    self.push_log(String::from_str(message));
                    AppAction::Nothing
                },
            }
        } else if (code == KeyCode::Char(' ') || code == KeyCode::Char('r') || code == KeyCode::Char('R'))
            && self.screen_index == 0 && !self.cluster_running {
            let role = match self.settings.role {
                NodeRole::Automatic => NodeRole::Main,
                NodeRole::Main => NodeRole::Worker,
                NodeRole::Worker => NodeRole::Automatic,
            };
            self.settings.role = role;
            let ghost nodes_before = nodes_view(self.nodes@);
            if self.nodes.len() > 0 {
                self.nodes[0].role = role;
            }
            proof {
                if nodes_before.len() > 0 {
                    assert(nodes_view(self.nodes@) =~= nodes_before.update(0, NodeView { role, ..nodes_before[0] }));
                } else {
                    assert(nodes_view(self.nodes@) =~= nodes_before);
                }
            }
            AppAction::SaveSettings
        } else {
            AppAction::Nothing
        }
    }
}


/// The actions offered on the current page.
pub open spec fn help_actions(s: AppView) -> Seq<Seq<char>> {
    let l = s.language;
    if s.screen_index == 0 {
        if s.cluster_running {
            seq![lang_text(l, "Enter stop"@, "Enter остановить"@)]
        } else if s.model is Some && s.settings.role != NodeRole::Worker {
            seq![lang_text(l, "Space role"@, "Space роль"@), lang_text(l, "Enter start"@, "Enter запустить"@)]
        } else {
            seq![lang_text(l, "Space role"@, "Space роль"@)]
        }
    } else if s.screen_index == 4 {
        if !s.streaming {
            if s.cluster_running {
                seq![lang_text(l, "Enter send"@, "Enter отправить"@), lang_text(l, "Ctrl+N clear chat"@, "Ctrl+N очистить чат"@)]
            } else {
                seq![lang_text(l, "Ctrl+N clear chat"@, "Ctrl+N очистить чат"@)]
            }
        } else {
            seq![lang_text(l, "Generating…"@, "Генерация…"@)]
        }
    } else {
        seq![]
    }
}

/// The navigation hint of the current page.
pub open spec fn help_navigation(s: AppView) -> Seq<char> {
    if s.screen_index == 4 {
        lang_text(s.language, " Tab/Shift+Tab pages   Ctrl+Q quit"@, " Tab/Shift+Tab страницы   Ctrl+Q выход"@)
    } else {
        lang_text(s.language, " Tab/Shift+Tab pages   Q quit"@, " Tab/Shift+Tab страницы   Q выход"@)
    }
}

/// The hint lines at the bottom of the screen.
pub open spec fn help_spec(s: AppView) -> Seq<Seq<char>> {
    if s.pending_pairing is Some {
        seq![lang_text(s.language, " ←/→ choice   Enter confirm   Esc reject"@, " ←/→ выбор   Enter подтвердить   Esc отклонить"@)]
    } else {
        seq![" "@ + joined(help_actions(s), "   "@), help_navigation(s)]
    }
}

/// Keeps the nodes with another id.
pub open spec fn other_than(id: u128) -> spec_fn(NodeSummary) -> bool {
    |n: NodeSummary| n.id != id
}

/// The node added for a newly discovered peer.
pub open spec fn discovered_view(node: DiscoveredNode) -> NodeView {
    NodeView {
        id: node.id,
        name: node.name@,
        role: NodeRole::Automatic,
        status: NodeStatus::Discovered,
        addresses: node.addresses@,
        control_port: node.control_port,
        rpc_port: 50052,
        available_memory_bytes: 0,
        compute_backend: node.backend@,
    }
}

impl App {
    /// Reports the outcome of saving the settings after a role change.
    pub fn role_saved(&mut self, error: Option<String>)
        ensures
            final(self)@ == (AppView {
                logs: with_log(
                    old(self)@.logs,
                    match error {
                        Some(e) => lang_text(old(self).language, "Could not save settings"@, "Не удалось сохранить настройки"@) + ": "@ + e@,
                        None => lang_text(old(self).language, "Role"@, "Роль"@) + ": "@ + crate::locale::role_label(old(self).language, old(self).settings.role),
                    },
                ),
                ..old(self)@
            }),
    {
        let message = match error {
            Some(e) => concat3(
                self.language.text("Could not save settings", "Не удалось сохранить настройки"),
                ": ",
                e.as_str(),
            ),
            None => concat3(self.language.text("Role", "Роль"), ": ", self.language.role(self.settings.role)),
        };
        self.push_log(message);
    }

    /// A node appeared on the LAN: listed once, as discovered.
    pub fn node_discovered(&mut self, node: DiscoveredNode)
        ensures
            (exists|i: int| 0 <= i < old(self).nodes@.len() && old(self).nodes@[i].id == node.id)
                ==> final(self)@ == old(self)@,
            !(exists|i: int| 0 <= i < old(self).nodes@.len() && old(self).nodes@[i].id == node.id)
                ==> final(self)@ == (AppView {
                nodes: old(self)@.nodes.push(discovered_view(node)),
                logs: with_log(
                    old(self)@.logs,
                    lang_text(old(self).language, "Node discovered"@, "Обнаружен узел"@) + ": "@ + node.name@,
                ),
                ..old(self)@
            }),
    {
        for i in 0..self.nodes.len()
            invariant
                forall|k: int| 0 <= k < i ==> self.nodes@[k].id != node.id,
        {
            if self.nodes[i].id == node.id {
                return;
            }
        }
        let message = concat3(self.language.text("Node discovered", "Обнаружен узел"), ": ", node.name.as_str());
        let ghost before = nodes_view(self.nodes@);
        self.nodes.push(NodeSummary {
            id: node.id,
            name: node.name,
            role: NodeRole::Automatic,
            status: NodeStatus::Discovered,
            addresses: node.addresses,
            control_port: node.control_port,
            rpc_port: 50052,
            available_memory_bytes: 0,
            compute_backend: node.backend,
        });
        proof {
            assert(nodes_view(self.nodes@) =~= before.push(discovered_view(node)));
        }
        self.push_log(message);
    }

    /// A node finished pairing: its summary replaces any earlier entry.
    pub fn node_paired(&mut self, node: NodeSummary)
        ensures
            final(self)@ == (AppView {
                nodes: nodes_view(old(self).nodes@.filter(other_than(node.id))).push(node_view(node)),
                logs: with_log(old(self)@.logs, lang_text(old(self).language, "Connected"@, "Подключён"@) + ": "@ + node.name@),
                ..old(self)@
            }),
    {
        let ghost old_nodes = self.nodes@;
        let mut nodes: Vec<NodeSummary> = Vec::new();
        std::mem::swap(&mut nodes, &mut self.nodes);
        let mut kept: Vec<NodeSummary> = Vec::new();
        let ghost pred = other_than(node.id);
        let total = nodes.len();
        proof {
            assert(total == old_nodes.len());
        }
        let mut i: usize = 0;
        proof {
            assert(old_nodes.skip(0) == old_nodes);
        }
        while nodes.len() > 0
            invariant
                pred == other_than(node.id),
                old_nodes.len() <= usize::MAX,
                i + nodes@.len() == old_nodes.len(),
                nodes@ == old_nodes.skip(i as int),
                nodes_view(kept@) == nodes_view(old_nodes.take(i as int).filter(pred)),
            decreases nodes@.len(),
        {
            let n = nodes.remove(0);
            proof {
                assert(old_nodes.take(i + 1).drop_last() == old_nodes.take(i as int));
                assert(old_nodes.take(i + 1).last() == n);
                assert(old_nodes.skip(i + 1) == old_nodes.skip(i as int).drop_first());
                reveal_with_fuel(Seq::filter, 1);
            }
            if n.id != node.id {
                let ghost kv = nodes_view(kept@);
                kept.push(n);
                proof {
                    reveal_with_fuel(Seq::filter, 1);
                    assert(nodes_view(kept@) =~= kv.push(node_view(n)));
                    assert(old_nodes.take(i + 1).filter(pred) == old_nodes.take(i as int).filter(pred).push(n));
                    assert(nodes_view(old_nodes.take(i as int).filter(pred).push(n)) =~= nodes_view(
                        old_nodes.take(i as int).filter(pred),
                    ).push(node_view(n)));
                }
            }
            i += 1;
        }
        proof {
            assert(old_nodes.take(i as int) == old_nodes);
        }
        let message = concat3(self.language.text("Connected", "Подключён"), ": ", node.name.as_str());
        let ghost kv = nodes_view(kept@);
        kept.push(node);
        proof {
            assert(nodes_view(kept@) =~= kv.push(node_view(node)));
        }
        self.nodes = kept;
        self.push_log(message);
    }

    /// A peer asks to pair: show the dialog with Accept preselected.
    pub fn pairing_requested(&mut self, name: String, address: SocketAddress, code: String)
        ensures
            final(self)@ == (AppView {
                pending_pairing: Some(PendingPairing { name, address, code, accept_selected: true }),
                ..old(self)@
            }),
    {
        self.pending_pairing = Some(PendingPairing { name, address, code, accept_selected: true });
    }

    /// The model process started.
    pub fn cluster_started(&mut self)
        ensures
            final(self)@ == (AppView {
                last_error: None,
                cluster_running: true,
                logs: with_log(old(self)@.logs, lang_text(old(self).language, "Model process started"@, "Процесс модели запущен"@)),
                ..old(self)@
            }),
    {
        self.last_error = None;
        self.cluster_running = true;
        let message = self.language.text("Model process started", "Процесс модели запущен");
        self.push_log(String::from_str(message));
    }

    /// The model stopped.
    pub fn cluster_stopped(&mut self)
        ensures
            final(self)@ == (AppView {
                last_error: None,
                cluster_running: false,
                logs: with_log(old(self)@.logs, lang_text(old(self).language, "Model stopped"@, "Модель остановлена"@)),
                ..old(self)@
            }),
    {
        self.last_error = None;
        self.cluster_running = false;
        let message = self.language.text("Model stopped", "Модель остановлена");
        self.push_log(String::from_str(message));
    }

    /// A newer release exists.
    pub fn update_found(&mut self, latest_version: String)
        ensures
            final(self)@ == (AppView { update_available: Some(latest_version@), ..old(self)@ }),
    {
        self.update_available = Some(latest_version);
    }

    /// A background failure: remembered as the last error and logged.
    pub fn runtime_error(&mut self, message: String)
        ensures
            final(self)@ == (AppView {
                last_error: Some(message@),
                logs: with_log(old(self)@.logs, message@),
                ..old(self)@
            }),
    {
        self.last_error = Some(message.clone());
        self.push_log(message);
    }

    /// A streamed token extends the assistant's reply, if one is open.
    pub fn chat_token(&mut self, token: &str)
        ensures
            final(self)@ == (AppView {
                messages: if old(self)@.messages.len() > 0 && old(self)@.messages.last().0 == ChatRole::Assistant {
                    old(self)@.messages.update(
                        old(self)@.messages.len() - 1,
                        (ChatRole::Assistant, old(self)@.messages.last().1 + token@),
                    )
                } else {
                    old(self)@.messages
                },
                ..old(self)@
            }),
    {
        let len = self.chat_messages.len();
        if len > 0 && self.chat_messages[len - 1].role == ChatRole::Assistant {
            let ghost before = messages_view(self.chat_messages@);
            self.chat_messages[len - 1].content.append(token);
            proof {
                assert(messages_view(self.chat_messages@) =~= before.update(
                    len - 1,
                    (ChatRole::Assistant, before.last().1 + token@),
                ));
            }
        }
    }

    /// The reply finished streaming.
    pub fn chat_finished(&mut self)
        ensures
            final(self)@ == (AppView { streaming: false, ..old(self)@ }),
    {
        self.chat_streaming = false;
    }

    /// Streaming failed: an empty reply shows the error, which is also logged.
    pub fn chat_failed(&mut self, message: String)
        ensures
            final(self)@ == (AppView {
                streaming: false,
                messages: if old(self)@.messages.len() > 0 && old(self)@.messages.last().0 == ChatRole::Assistant
                    && old(self)@.messages.last().1.len() == 0 {
                    old(self)@.messages.update(old(self)@.messages.len() - 1, (ChatRole::Assistant, message@))
                } else {
                    old(self)@.messages
                },
                logs: with_log(old(self)@.logs, message@),
                ..old(self)@
            }),
    {
        self.chat_streaming = false;
        let len = self.chat_messages.len();
        if len > 0 && self.chat_messages[len - 1].role == ChatRole::Assistant
            && self.chat_messages[len - 1].content.as_str().is_empty() {
            let ghost before = messages_view(self.chat_messages@);
            self.chat_messages[len - 1].content = message.clone();
            proof {
                assert(messages_view(self.chat_messages@) =~= before.update(len - 1, (ChatRole::Assistant, message@)));
            }
        }
        self.push_log(message);
    }

    /// The key hints for the current page.
    pub fn help_hints(&self) -> (lines: Vec<String>)
        requires
            self.screen_index < SCREEN_COUNT,
        ensures
            strings_view(lines@) == help_spec(self@),
    {
        let l = self.language;
        let mut lines: Vec<String> = Vec::new();
        if self.pending_pairing.is_some() {
            lines.push(String::from_str(
                l.text(" ←/→ choice   Enter confirm   Esc reject", " ←/→ выбор   Enter подтвердить   Esc отклонить"),
            ));
            proof {
                assert(strings_view(lines@) =~= help_spec(self@));
            }
            return lines;
        }
        let mut actions: Vec<&str> = Vec::new();
        if self.screen_index == 0 {
            if self.cluster_running {
                actions.push(l.text("Enter stop", "Enter остановить"));
            } else {
                actions.push(l.text("Space role", "Space роль"));
                if self.model.is_some() && self.settings.role != NodeRole::Worker {
                    actions.push(l.text("Enter start", "Enter запустить"));
                }
            }
        } else if self.screen_index == 4 {
            if !self.chat_streaming {
                if self.cluster_running {
                    actions.push(l.text("Enter send", "Enter отправить"));
                }
                actions.push(l.text("Ctrl+N clear chat", "Ctrl+N очистить чат"));
            } else {
                actions.push(l.text("Generating…", "Генерация…"));
            }
        }
        let navigation = if self.screen_index == 4 {
            l.text(" Tab/Shift+Tab pages   Ctrl+Q quit", " Tab/Shift+Tab страницы   Ctrl+Q выход")
        } else {
            l.text(" Tab/Shift+Tab pages   Q quit", " Tab/Shift+Tab страницы   Q выход")
        };
        let first = if actions.len() == 0 {
            String::from_str(" ")
        } else if actions.len() == 1 {
            concat3(" ", actions[0], "")
        } else {
            let head = concat3(" ", actions[0], "   ");
            concat3(head.as_str(), actions[1], "")
        };
        proof {
            reveal_strlit("");
            let parts = Seq::new(actions@.len(), |i: int| actions@[i]@);
            assert(parts =~= help_actions(self@));
            if actions@.len() == 2 {
                assert(parts.drop_last() =~= seq![parts[0]]);
                assert(joined(parts.drop_last(), "   "@) == parts[0]);
            }
            assert(first@ =~= " "@ + joined(parts, "   "@));
        }
        lines.push(first);
        lines.push(String::from_str(navigation));
        proof {
            assert(strings_view(lines@) =~= help_spec(self@));
        }
        lines
    }
}

// ---------------------------------------------------------------------------
// Properties of keyboard navigation
// ---------------------------------------------------------------------------

/// Every key press keeps the page index on one of the six pages.
pub proof fn lemma_screen_stays_valid(s: AppView, key: KeyEvent)
    requires
        0 <= s.screen_index < SCREEN_COUNT,
    ensures
        0 <= step(s, key).0.screen_index < SCREEN_COUNT,
{
}

/// Tab followed by Shift+Tab returns to the same page on every page, with or
/// without text in the chat editor, whenever no pairing dialog is open.
pub proof fn lemma_tab_then_backtab_returns(s: AppView, forward: KeyModifiers, backward: KeyModifiers)
    requires
        0 <= s.screen_index < SCREEN_COUNT,
        s.pending_pairing is None,
    ensures
        step(step(s, KeyEvent { code: KeyCode::Tab, modifiers: forward }).0, KeyEvent { code: KeyCode::BackTab, modifiers: backward }).0.screen_index
            == s.screen_index,
{
}

/// While a reply is streaming, no key press changes the conversation.
pub proof fn lemma_streaming_keeps_history(s: AppView, key: KeyEvent)
    requires
        s.streaming,
    ensures
        step(s, key).0.messages == s.messages,
        step(s, key).0.streaming,
{
}

/// The node role changes only on the Cluster page while no model runs and no
/// pairing dialog is open, and each change asks the caller to save settings.
pub proof fn lemma_role_changes_only_when_idle_on_cluster(s: AppView, key: KeyEvent)
    requires
        step(s, key).0.settings.role != s.settings.role,
    ensures
        s.screen_index == 0,
        !s.cluster_running,
        s.pending_pairing is None,
        step(s, key).1 == ActionView::SaveSettings,
{
}

/// A message is sent only from the chat page, only while the model runs and
/// no reply is streaming; the request ends with the user's trimmed text and
/// the reply then streams.
pub proof fn lemma_send_requires_running_model(s: AppView, key: KeyEvent)
    requires
        step(s, key).1 is SendChat,
    ensures
        s.screen_index == 4,
        s.cluster_running,
        !s.streaming,
        step(s, key).1 == ActionView::SendChat(s.messages.push((ChatRole::User, trim(s.input)))),
        step(s, key).0.streaming,
{
}

/// Ctrl+Q quits from every page and from the pairing dialog.
pub proof fn lemma_ctrl_q_quits(s: AppView, modifiers: KeyModifiers)
    requires
        modifiers.control,
    ensures
        !step(s, KeyEvent { code: KeyCode::Char('q'), modifiers }).0.running,
{
}

/// In the pairing dialog, Enter answers the request with the choice on
/// screen: Accept exactly when Accept is selected, Reject otherwise. The
/// dialog closes, and the log's new last line names that same answer.
/// Esc always rejects.
pub proof fn lemma_enter_answers_selected_choice(s: AppView, p: PendingPairing, modifiers: KeyModifiers)
    requires
        s.pending_pairing == Some(p),
    ensures
        step(s, KeyEvent { code: KeyCode::Enter, modifiers }).1 == ActionView::AnswerPairing(
            if p.accept_selected { PairDecision::Accept } else { PairDecision::Reject },
        ),
        step(s, KeyEvent { code: KeyCode::Enter, modifiers }).0.pending_pairing is None,
        step(s, KeyEvent { code: KeyCode::Enter, modifiers }).0.logs.last() == (if p.accept_selected {
            lang_text(s.language, "Pairing accepted"@, "Подключение разрешено"@)
        } else {
            lang_text(s.language, "Pairing rejected"@, "Подключение отклонено"@)
        }),
        step(s, KeyEvent { code: KeyCode::Esc, modifiers }).1 == ActionView::AnswerPairing(PairDecision::Reject),
{
    let message = if p.accept_selected {
        lang_text(s.language, "Pairing accepted"@, "Подключение разрешено"@)
    } else {
        lang_text(s.language, "Pairing rejected"@, "Подключение отклонено"@)
    };
    lemma_with_log_ends_with(s.logs, message);
}

/// A copy of every message.
pub fn clone_messages(messages: &Vec<ChatMessage>) -> (copy: Vec<ChatMessage>)
    ensures
        copy@ == messages@,
{
    let mut copy: Vec<ChatMessage> = Vec::new();
    for i in 0..messages.len()
        invariant
            copy@ == messages@.take(i as int),
    {
        copy.push(messages[i].clone());
        proof {
            assert(messages@.take(i + 1) == messages@.take(i as int).push(messages@[i as int]));
        }
    }
    proof {
        assert(messages@.take(messages@.len() as int) == messages@);
    }
    copy
}

} // verus!
