//! State of the terminal interface: the chat log, scrolling, the four
//! panels, and the interface texts in Chinese and English.
use vstd::prelude::*;
use std::collections::VecDeque;
use crate::envvars::{env_lookup, env_or, lookup, lookup_or};
use crate::text::{
    char_index_of_byte, chars_of, decimal, decimal_chars, extend_chars, extend_str, has_prefix, lemma_utf8_len_push,
    lemma_utf8_len_take_mono, lemma_width_bounds, on_char_boundary, starts_with_chars, str_eq, string_of, utf8_len,
};

verus! {

// ───────────────────────── texts ─────────────────────────

/// Interface language.
#[derive(Debug, Clone, Copy, PartialEq, Eq, Structural)]
pub enum Lang {
    Zh,
    En,
}

impl Lang {
    /// The language for a locale string (the `LANG` variable): Chinese for
    /// a locale starting with `zh`, English otherwise.
    pub fn from_locale(locale: &str) -> (l: Lang)
        ensures
            l == (if has_prefix(locale@, "zh"@) { Lang::Zh } else { Lang::En }),
    {
        let v = chars_of(locale);
        let zh = chars_of("zh");
        if starts_with_chars(&v, &zh) {
            Lang::Zh
        } else {
            Lang::En
        }
    }
}

/// The interface texts of one language.
#[derive(Debug, Clone, Copy)]
pub struct I18n {
    pub lang: Lang,
}

/// The confirmation shown after the configuration file was created.
pub open spec fn init_ok_text(lang: Lang, path: Seq<char>) -> Seq<char> {
    match lang {
        Lang::Zh => "✅ 配置已创建: "@ + path,
        Lang::En => "✅ Config created: "@ + path,
    }
}

/// The header shown when sub-agents are dispatched.
pub open spec fn dispatch_header_text(lang: Lang, count: nat) -> Seq<char> {
    match lang {
        Lang::Zh => "🧠 派遣 "@ + decimal(count) + " 个子Agent"@,
        Lang::En => "🧠 Dispatching "@ + decimal(count) + " sub-agents"@,
    }
}

impl I18n {
    /// The texts of `lang`.
    pub fn new(lang: Lang) -> (r: Self)
        ensures
            r.lang == lang,
    {
        I18n { lang }
    }

    /// The title bar text.
    pub fn title(&self) -> (r: &'static str)
        ensures
            r@ == "🧠 Overmind"@,
    {
        match self.lang {
            Lang::Zh => "🧠 Overmind",
            Lang::En => "🧠 Overmind",
        }
    }

    /// The label before the model name.
    pub fn model_label(&self) -> (r: &'static str)
        ensures
            r@ == (match self.lang {
                Lang::Zh => "模型"@,
                Lang::En => "Model"@,
            }),
    {
        match self.lang {
            Lang::Zh => "模型",
            Lang::En => "Model",
        }
    }

    /// The title of the input box.
    pub fn input_placeholder(&self) -> (r: &'static str)
        ensures
            r@ == (match self.lang {
                Lang::Zh => "输入消息... (Enter发送, /help帮助)"@,
                Lang::En => "Type a message... (Enter to send)"@,
            }),
    {
        match self.lang {
            Lang::Zh => "输入消息... (Enter发送, /help帮助)",
            Lang::En => "Type a message... (Enter to send)",
        }
    }

    /// The help line of the commands.
    pub fn help_text(&self) -> (r: &'static str)
        ensures
            r@ == (match self.lang {
                Lang::Zh => "/exit退出 /clear清空 /init初始化 /dispatch任务派遣"@,
                Lang::En => "/exit /clear /init /dispatch"@,
            }),
    {
        match self.lang {
            Lang::Zh => "/exit退出 /clear清空 /init初始化 /dispatch任务派遣",
            Lang::En => "/exit /clear /init /dispatch",
        }
    }

    /// The goodbye message.
    pub fn exit_msg(&self) -> (r: &'static str)
        ensures
            r@ == (match self.lang {
                Lang::Zh => "会话结束"@,
                Lang::En => "Session ended"@,
            }),
    {
        match self.lang {
            Lang::Zh => "会话结束",
            Lang::En => "Session ended",
        }
    }

    /// The text shown while waiting for an answer.
    pub fn loading(&self) -> (r: &'static str)
        ensures
            r@ == (match self.lang {
                Lang::Zh => "思考中..."@,
                Lang::En => "Thinking..."@,
            }),
    {
        match self.lang {
            Lang::Zh => "思考中...",
            Lang::En => "Thinking...",
        }
    }

    /// The confirmation that the configuration file was created at `path`.
    pub fn init_ok(&self, path: &str) -> (r: String)
        ensures
            r@ == init_ok_text(self.lang, path@),
    {
        let mut out: Vec<char> = match self.lang {
            Lang::Zh => chars_of("✅ 配置已创建: "),
            Lang::En => chars_of("✅ Config created: "),
        };
        extend_str(&mut out, path);
        string_of(&out)
    }

    /// The header shown when `count` sub-agents are dispatched.
    pub fn dispatch_header(&self, count: usize) -> (r: String)
        ensures
            r@ == dispatch_header_text(self.lang, count as nat),
    {
        let digits = decimal_chars(count as u64);
        let mut out: Vec<char> = match self.lang {
            Lang::Zh => chars_of("🧠 派遣 "),
            Lang::En => chars_of("🧠 Dispatching "),
        };
        extend_chars(&mut out, &digits);
        match self.lang {
            Lang::Zh => extend_str(&mut out, " 个子Agent"),
            Lang::En => extend_str(&mut out, " sub-agents"),
        }
        string_of(&out)
    }

    /// The hint shown when no model provider is configured.
    pub fn no_provider(&self) -> (r: &'static str)
        ensures
            r@ == (match self.lang {
                Lang::Zh => "请设置 API Key（如 DEEPSEEK_API_KEY）"@,
                Lang::En => "Please set an API Key (e.g. DEEPSEEK_API_KEY)"@,
            }),
    {
        match self.lang {
            Lang::Zh => "请设置 API Key（如 DEEPSEEK_API_KEY）",
            Lang::En => "Please set an API Key (e.g. DEEPSEEK_API_KEY)",
        }
    }
}

// ───────────────────────── application state ─────────────────────────

/// The four panels of the interface.
#[derive(Debug, Clone, Copy, PartialEq, Eq, Structural)]
pub enum Panel {
    Chat,
    Scenes,
    Trust,
    Status,
}

/// The panel after `p` in the cycle Chat → Scenes → Trust → Status → Chat.
pub open spec fn panel_after(p: Panel) -> Panel {
    match p {
        Panel::Chat => Panel::Scenes,
        Panel::Scenes => Panel::Trust,
        Panel::Trust => Panel::Status,
        Panel::Status => Panel::Chat,
    }
}

/// The panel before `p` in the same cycle.
pub open spec fn panel_before(p: Panel) -> Panel {
    match p {
        Panel::Chat => Panel::Status,
        Panel::Scenes => Panel::Chat,
        Panel::Trust => Panel::Scenes,
        Panel::Status => Panel::Trust,
    }
}

/// Going forward then back, or back then forward, returns to the same
/// panel, and four steps forward make a full round.
pub proof fn lemma_panel_cycle(p: Panel)
    ensures
        panel_before(panel_after(p)) == p,
        panel_after(panel_before(p)) == p,
        panel_after(panel_after(panel_after(panel_after(p)))) == p,
{
}

/// Who wrote a chat message.
#[derive(Debug, Clone, Copy, PartialEq, Eq, Structural)]
pub enum MsgRole {
    User,
    Assistant,
    System,
}

/// A chat message.
#[derive(Debug, Clone)]
pub struct ChatMsg {
    pub role: MsgRole,
    pub content: String,
}

/// Messages kept before the oldest is dropped.
pub const MAX_MESSAGES: usize = 200;

/// The state of the terminal interface.
pub struct App {
    pub messages: VecDeque<ChatMsg>,
    pub input: String,
    pub cursor: usize,
    pub scroll: usize,
    pub running: bool,
    pub i18n: I18n,
    pub panel: Panel,
    pub status_info: String,
    pub scenes: Vec<(String, bool)>,
    pub pending_memories: Vec<String>,
    pub trust_lines: Vec<String>,
}

impl App {
    /// A running interface on the chat panel with nothing typed, nothing
    /// said and nothing fetched yet.
    pub fn new(lang: Lang) -> (a: Self)
        ensures
            a.messages@.len() == 0,
            a.input@.len() == 0,
            a.cursor == 0,
            a.scroll == 0,
            a.running,
            a.i18n.lang == lang,
            a.panel == Panel::Chat,
            a.status_info@.len() == 0,
            a.scenes@.len() == 0,
            a.pending_memories@.len() == 0,
            a.trust_lines@.len() == 0,
    {
        App {
            messages: VecDeque::new(),
            input: String::new(),
            cursor: 0,
            scroll: 0,
            running: true,
            i18n: I18n::new(lang),
            panel: Panel::Chat,
            status_info: String::new(),
            scenes: Vec::new(),
            pending_memories: Vec::new(),
            trust_lines: Vec::new(),
        }
    }

    /// Appends a message; when more than 200 messages are held, the oldest
    /// one is dropped first.
    pub fn add_msg(&mut self, role: MsgRole, content: String)
        ensures
            final(self).messages@ == (if old(self).messages@.len() > MAX_MESSAGES {
                old(self).messages@.drop_first()
            } else {
                old(self).messages@
            }).push(ChatMsg { role, content }),
            final(self).scroll == old(self).scroll,
            *final(self) == (App { messages: final(self).messages, ..*old(self) }),
            final(self).panel == old(self).panel,
            final(self).input@ == old(self).input@,
            final(self).cursor == old(self).cursor,
            final(self).i18n == old(self).i18n,
    {
        if self.messages.len() > MAX_MESSAGES {
            self.messages.pop_front();
        }
        let ghost kept = self.messages@;
        self.messages.push_back(ChatMsg { role, content });
        assert(old(self).messages@.len() > MAX_MESSAGES ==> kept =~= old(self).messages@.drop_first());
    }

    /// Scrolls one message further back, up to the oldest message.
    pub fn scroll_up(&mut self)
        requires
            old(self).scroll < usize::MAX,
        ensures
            final(self).scroll == (if old(self).scroll + 1 <= old(self).messages@.len() - 1 {
                old(self).scroll + 1
            } else if old(self).messages@.len() > 0 {
                old(self).messages@.len() - 1
            } else {
                0
            }),
            final(self).scroll < usize::MAX,
            final(self).messages@ == old(self).messages@,
            *final(self) == (App { scroll: final(self).scroll, ..*old(self) }),
            final(self).input@ == old(self).input@,
            final(self).cursor == old(self).cursor,
            final(self).i18n == old(self).i18n,
            final(self).panel == old(self).panel,
    {
        let limit = if self.messages.len() > 0 { self.messages.len() - 1 } else { 0 };
        let next = self.scroll + 1;
        self.scroll = if next < limit { next } else { limit };
    }

    /// Scrolls one message forward, down to the newest.
    pub fn scroll_down(&mut self)
        ensures
            final(self).scroll == (if old(self).scroll > 0 { old(self).scroll - 1 } else { 0 }),
            *final(self) == (App { scroll: final(self).scroll, ..*old(self) }),
            final(self).messages@ == old(self).messages@,
            final(self).input@ == old(self).input@,
            final(self).cursor == old(self).cursor,
            final(self).i18n == old(self).i18n,
            final(self).panel == old(self).panel,
    {
        self.scroll = self.scroll.saturating_sub(1);
    }

    /// Forgets every message and scrolls back to the newest.
    pub fn clear_chat(&mut self)
        ensures
            final(self).messages@.len() == 0,
            final(self).scroll == 0,
            *final(self) == (App { messages: final(self).messages, scroll: 0, ..*old(self) }),
            final(self).panel == old(self).panel,
            final(self).input@ == old(self).input@,
            final(self).cursor == old(self).cursor,
            final(self).i18n == old(self).i18n,
    {
        self.messages.clear();
        self.scroll = 0;
    }

    /// Switches to the next panel.
    pub fn next_panel(&mut self)
        ensures
            final(self).panel == panel_after(old(self).panel),
            *final(self) == (App { panel: panel_after(old(self).panel), ..*old(self) }),
            final(self).messages@ == old(self).messages@,
            final(self).input@ == old(self).input@,
            final(self).cursor == old(self).cursor,
            final(self).i18n == old(self).i18n,
            final(self).scroll == old(self).scroll,
    {
        self.panel = match self.panel {
            Panel::Chat => Panel::Scenes,
            Panel::Scenes => Panel::Trust,
            Panel::Trust => Panel::Status,
            Panel::Status => Panel::Chat,
        };
    }

    /// Switches to the previous panel.
    pub fn prev_panel(&mut self)
        ensures
            final(self).panel == panel_before(old(self).panel),
            *final(self) == (App { panel: panel_before(old(self).panel), ..*old(self) }),
            final(self).messages@ == old(self).messages@,
            final(self).input@ == old(self).input@,
            final(self).cursor == old(self).cursor,
            final(self).i18n == old(self).i18n,
            final(self).scroll == old(self).scroll,
    {
        self.panel = match self.panel {
            Panel::Chat => Panel::Status,
            Panel::Scenes => Panel::Chat,
            Panel::Trust => Panel::Scenes,
            Panel::Status => Panel::Trust,
        };
    }
}

/// The chat log never holds more than 201 messages: adding a message to a
/// log of at most 201 leaves at most 201.
pub proof fn lemma_log_bounded(before: Seq<ChatMsg>, m: ChatMsg)
    requires
        before.len() <= MAX_MESSAGES + 1,
    ensures
        (if before.len() > MAX_MESSAGES { before.drop_first() } else { before }).push(m).len()
            <= MAX_MESSAGES + 1,
{
}

// ───────────────────────── start-up and input ─────────────────────────

/// The model the interface talks to (`BUGS_MODEL`, else `gpt-4o-mini`).
pub open spec fn startup_model(env: Seq<(String, String)>) -> Seq<char> {
    env_or(env, "BUGS_MODEL"@, "gpt-4o-mini"@)
}

/// The provider names announced at start-up: OpenAI, Anthropic and
/// DeepSeek where their keys are set, then Ollama, which is always there.
pub open spec fn startup_providers(env: Seq<(String, String)>) -> Seq<Seq<char>> {
    (if env_lookup(env, "OPENAI_API_KEY"@) is Some { seq!["openai"@] } else { seq![] })
    + (if env_lookup(env, "ANTHROPIC_API_KEY"@) is Some { seq!["anthropic"@] } else { seq![] })
    + (if env_lookup(env, "DEEPSEEK_API_KEY"@) is Some { seq!["deepseek"@] } else { seq![] })
    + seq!["ollama"@]
}

/// The model and the provider names that the interface announces, read
/// from the environment.
pub fn auto_register_from_env(env: &Vec<(String, String)>) -> (r: (String, Vec<String>))
    ensures
        r.0@ == startup_model(env@),
        r.1@.map_values(|s: String| s@) == startup_providers(env@),
{
    let model = lookup_or(env, "BUGS_MODEL", "gpt-4o-mini");
    let mut providers: Vec<String> = Vec::new();
    let ghost v0 = providers@.map_values(|s: String| s@);
    if lookup(env, "OPENAI_API_KEY").is_some() {
        providers.push("openai".to_owned());
    }
    let ghost v1 = providers@.map_values(|s: String| s@);
    assert(v1 =~= v0 + (if env_lookup(env@, "OPENAI_API_KEY"@) is Some { seq!["openai"@] } else { seq![] }));
    if lookup(env, "ANTHROPIC_API_KEY").is_some() {
        providers.push("anthropic".to_owned());
    }
    let ghost v2 = providers@.map_values(|s: String| s@);
    assert(v2 =~= v1 + (if env_lookup(env@, "ANTHROPIC_API_KEY"@) is Some { seq!["anthropic"@] } else { seq![] }));
    if lookup(env, "DEEPSEEK_API_KEY").is_some() {
        providers.push("deepseek".to_owned());
    }
    let ghost v3 = providers@.map_values(|s: String| s@);
    assert(v3 =~= v2 + (if env_lookup(env@, "DEEPSEEK_API_KEY"@) is Some { seq!["deepseek"@] } else { seq![] }));
    providers.push("ollama".to_owned());
    assert(providers@.map_values(|s: String| s@) =~= v3 + seq!["ollama"@]);
    assert(providers@.map_values(|s: String| s@) =~= startup_providers(env@));
    (model, providers)
}

/// A key press, as the interface distinguishes them.
#[derive(Debug, Clone, Copy, PartialEq, Eq, Structural)]
pub enum Key {
    Esc,
    Enter,
    Char(char),
    Backspace,
    Left,
    Right,
    Up,
    Down,
    PageUp,
    PageDown,
    Tab,
    BackTab,
    Other,
}

/// What the interface loop does after a key press.
#[derive(Debug, Clone, PartialEq, Eq)]
pub enum KeyOutcome {
    /// Redraw and wait for the next key.
    Continue,
    /// Leave the interface.
    Quit,
    /// Run a management command (`/scene…`, `/memory…`, `/status…`) and
    /// show its result as a system message.
    Command(String),
    /// Send the conversation, which now ends with this user message.
    Chat(String),
}

/// The message log after `m` is added: past 200 messages the oldest goes.
pub open spec fn log_after(log: Seq<ChatMsg>, m: ChatMsg) -> Seq<ChatMsg> {
    (if log.len() > MAX_MESSAGES { log.drop_first() } else { log }).push(m)
}

/// The scroll position after one step up in a log of `len` messages.
pub open spec fn scrolled_up(scroll: int, len: int) -> int {
    let limit = if len > 0 { len - 1 } else { 0 };
    if scroll + 1 < limit { scroll + 1 } else { limit }
}

/// The scroll position after one step down.
pub open spec fn scrolled_down(scroll: int) -> int {
    if scroll > 0 { scroll - 1 } else { 0 }
}

/// The scroll position after `n` steps up.
pub open spec fn scrolled_up_n(scroll: int, len: int, n: nat) -> int
    decreases n,
{
    if n == 0 { scroll } else { scrolled_up_n(scrolled_up(scroll, len), len, (n - 1) as nat) }
}

/// The scroll position after `n` steps down.
pub open spec fn scrolled_down_n(scroll: int, n: nat) -> int
    decreases n,
{
    if n == 0 { scroll } else { scrolled_down_n(scrolled_down(scroll), (n - 1) as nat) }
}

/// Whether a submitted line is a management command sent to the daemon.
pub open spec fn is_management_command(line: Seq<char>) -> bool {
    has_prefix(line, "/scene"@) || has_prefix(line, "/memory"@) || has_prefix(line, "/status"@)
}

fn starts_with_str(s: &str, p: &str) -> (r: bool)
    ensures
        r == has_prefix(s@, p@),
{
    let sv = chars_of(s);
    let pv = chars_of(p);
    starts_with_chars(&sv, &pv)
}

impl App {
    fn submit(&mut self) -> (r: KeyOutcome)
        ensures
            final(self).input@.len() == 0,
            final(self).cursor == 0,
            final(self).i18n == old(self).i18n,
            final(self).panel == old(self).panel,
            ({
                let line = old(self).input@;
                if line == "/exit"@ {
                    &&& r == KeyOutcome::Quit
                    &&& exists|t: String| t@ == (match old(self).i18n.lang {
                        Lang::Zh => "会话结束"@,
                        Lang::En => "Session ended"@,
                    }) && final(self).messages@ == log_after(old(self).messages@, ChatMsg { role: MsgRole::System, content: t })
                } else if line == "/clear"@ {
                    r == KeyOutcome::Continue && final(self).messages@.len() == 0 && final(self).scroll == 0
                } else if line.len() == 0 {
                    r == KeyOutcome::Continue && final(self).messages@ == old(self).messages@
                } else if is_management_command(line) {
                    &&& r matches KeyOutcome::Command(c) && c@ == line
                    &&& final(self).messages@ == old(self).messages@
                } else {
                    &&& r matches KeyOutcome::Chat(c) && c@ == line
                    &&& exists|t: String| t@ == line
                        && final(self).messages@ == log_after(old(self).messages@, ChatMsg { role: MsgRole::User, content: t })
                }
            }),
    {
        let input = self.input.clone();
        self.input = String::new();
        self.cursor = 0;
        if crate::text::str_eq(input.as_str(), "/exit") {
            let t = self.i18n.exit_msg().to_owned();
            let ghost tv = t;
            self.add_msg(MsgRole::System, t);
            assert(self.messages@ == log_after(old(self).messages@, ChatMsg { role: MsgRole::System, content: tv }));
            return KeyOutcome::Quit;
        }
        if crate::text::str_eq(input.as_str(), "/clear") {
            self.clear_chat();
            return KeyOutcome::Continue;
        }
        if chars_of(input.as_str()).len() == 0 {
            return KeyOutcome::Continue;
        }
        if starts_with_str(input.as_str(), "/scene") || starts_with_str(input.as_str(), "/memory")
            || starts_with_str(input.as_str(), "/status") {
            return KeyOutcome::Command(input);
        }
        let t = input.clone();
        let ghost tv = t;
        self.add_msg(MsgRole::User, t);
        assert(self.messages@ == log_after(old(self).messages@, ChatMsg { role: MsgRole::User, content: tv }));
        KeyOutcome::Chat(input)
    }

    /// Applies one key press to the interface. The cursor is a byte
    /// position in the input line's UTF-8 encoding, and moves by one byte
    /// per key: a typed character is inserted at the cursor, which then
    /// steps one byte on, and Right steps one byte on, up to the line's end.
    /// After a character of several bytes the cursor can thus stand inside
    /// it, and typing or deleting there is not allowed. Enter submits the
    /// line: `/exit` says goodbye
    /// and quits, `/clear` empties the log, an empty line does nothing, a
    /// management command is handed out to be run, and anything else is
    /// logged as the user's message and handed out to be sent.
    pub fn handle_key(&mut self, key: Key) -> (r: KeyOutcome)
        requires
            (key == Key::Up || key == Key::PageUp) ==> old(self).scroll < usize::MAX,
            old(self).cursor <= utf8_len(old(self).input@),
            utf8_len(old(self).input@) <= usize::MAX,
            key is Char ==> on_char_boundary(old(self).input@, old(self).cursor as int) && old(self).cursor
                < usize::MAX,
            key == Key::Backspace && old(self).cursor > 0 ==> on_char_boundary(
                old(self).input@,
                old(self).cursor - 1,
            ),
        ensures
            final(self).cursor <= utf8_len(final(self).input@),
            final(self).i18n == old(self).i18n,
            match key {
                Key::Esc => r == KeyOutcome::Quit && *final(self) == *old(self),
                Key::Enter => {
                    let line = old(self).input@;
                    &&& final(self).input@.len() == 0
                    &&& final(self).cursor == 0
                    &&& final(self).panel == old(self).panel
                    &&& if line == "/exit"@ {
                        &&& r == KeyOutcome::Quit
                        &&& exists|t: String| t@ == (match old(self).i18n.lang {
                            Lang::Zh => "会话结束"@,
                            Lang::En => "Session ended"@,
                        }) && final(self).messages@ == log_after(old(self).messages@, ChatMsg { role: MsgRole::System, content: t })
                    } else if line == "/clear"@ {
                        r == KeyOutcome::Continue && final(self).messages@.len() == 0 && final(self).scroll == 0
                    } else if line.len() == 0 {
                        r == KeyOutcome::Continue && final(self).messages@ == old(self).messages@
                    } else if is_management_command(line) {
                        &&& r matches KeyOutcome::Command(c) && c@ == line
                        &&& final(self).messages@ == old(self).messages@
                    } else {
                        &&& r matches KeyOutcome::Chat(c) && c@ == line
                        &&& exists|t: String| t@ == line
                            && final(self).messages@ == log_after(old(self).messages@, ChatMsg { role: MsgRole::User, content: t })
                    }
                },
                Key::Char(c) => {
                    &&& r == KeyOutcome::Continue
                    &&& exists|k: int|
                        0 <= k <= old(self).input@.len() && utf8_len(old(self).input@.take(k)) == old(self).cursor
                            && final(self).input@ == old(self).input@.insert(k, c)
                    &&& final(self).cursor == old(self).cursor + 1
                    &&& final(self).messages@ == old(self).messages@
                },
                Key::Backspace => {
                    &&& r == KeyOutcome::Continue
                    &&& if old(self).cursor > 0 {
                        &&& exists|k: int|
                            0 <= k < old(self).input@.len() && utf8_len(old(self).input@.take(k)) == old(self).cursor
                                - 1 && final(self).input@ == old(self).input@.remove(k)
                        &&& final(self).cursor == old(self).cursor - 1
                    } else {
                        final(self).input@ == old(self).input@ && final(self).cursor == 0
                    }
                    &&& final(self).messages@ == old(self).messages@
                },
                Key::Left => r == KeyOutcome::Continue && final(self).input@ == old(self).input@
                    && final(self).cursor == (if old(self).cursor > 0 { old(self).cursor - 1 } else { 0 }),
                Key::Right => r == KeyOutcome::Continue && final(self).input@ == old(self).input@
                    && final(self).cursor == (if old(self).cursor + 1 < utf8_len(old(self).input@) {
                        old(self).cursor + 1
                    } else {
                        utf8_len(old(self).input@) as int
                    }),
                Key::Up => r == KeyOutcome::Continue && final(self).messages@ == old(self).messages@
                    && final(self).scroll == scrolled_up(old(self).scroll as int, old(self).messages@.len() as int),
                Key::Down => r == KeyOutcome::Continue && final(self).messages@ == old(self).messages@
                    && final(self).scroll == scrolled_down(old(self).scroll as int),
                Key::PageUp => r == KeyOutcome::Continue && final(self).messages@ == old(self).messages@
                    && final(self).scroll == scrolled_up_n(old(self).scroll as int, old(self).messages@.len() as int, 5),
                Key::PageDown => r == KeyOutcome::Continue && final(self).messages@ == old(self).messages@
                    && final(self).scroll == scrolled_down_n(old(self).scroll as int, 5),
                Key::Tab => r == KeyOutcome::Continue && final(self).panel == panel_after(old(self).panel)
                    && final(self).messages@ == old(self).messages@,
                Key::BackTab => r == KeyOutcome::Continue && final(self).panel == panel_before(old(self).panel)
                    && final(self).messages@ == old(self).messages@,
                Key::Other => r == KeyOutcome::Continue && *final(self) == *old(self),
            },
    {
        match key {
            Key::Esc => KeyOutcome::Quit,
            Key::Enter => self.submit(),
            Key::Char(c) => {
                let mut v = chars_of(self.input.as_str());
                let k = char_index_of_byte(&v, self.cursor);
                let ghost before = v@;
                v.insert(k, c);
                proof {
                    let after = v@;
                    assert(after.take(k + 1) =~= before.take(k as int).push(c));
                    lemma_utf8_len_push(before.take(k as int), c);
                    lemma_width_bounds(c);
                    lemma_utf8_len_take_mono(after, k + 1, after.len() as int);
                    assert(after.take(after.len() as int) =~= after);
                }
                self.input = string_of(&v);
                self.cursor = self.cursor + 1;
                KeyOutcome::Continue
            },
            Key::Backspace => {
                if self.cursor > 0 {
                    let mut v = chars_of(self.input.as_str());
                    let k = char_index_of_byte(&v, self.cursor - 1);
                    let ghost before = v@;
                    proof {
                        assert(before.take(before.len() as int) =~= before);
                    }
                    v.remove(k);
                    proof {
                        let after = v@;
                        assert(after.take(k as int) =~= before.take(k as int));
                        lemma_utf8_len_take_mono(after, k as int, after.len() as int);
                        assert(after.take(after.len() as int) =~= after);
                    }
                    self.input = string_of(&v);
                    self.cursor = self.cursor - 1;
                }
                KeyOutcome::Continue
            },
            Key::Left => {
                self.cursor = self.cursor.saturating_sub(1);
                KeyOutcome::Continue
            },
            Key::Right => {
                let n = self.input.as_str().len();
                self.cursor = if self.cursor < n { self.cursor + 1 } else { n };
                KeyOutcome::Continue
            },
            Key::Up => {
                self.scroll_up();
                KeyOutcome::Continue
            },
            Key::Down => {
                self.scroll_down();
                KeyOutcome::Continue
            },
            Key::PageUp => {
                let mut k: usize = 0;
                while k < 5
                    invariant
                        k <= 5,
                        self.messages@ == old(self).messages@,
                        self.scroll == scrolled_up_n(old(self).scroll as int, old(self).messages@.len() as int, k as nat),
                        self.scroll < usize::MAX,
                        self.panel == old(self).panel,
                        self.input@ == old(self).input@,
                        self.cursor == old(self).cursor,
                        self.i18n == old(self).i18n,
                    decreases 5 - k,
                {
                    proof { lemma_scrolled_up_n_step(old(self).scroll as int, old(self).messages@.len() as int, k as nat); }
                    self.scroll_up();
                    k = k + 1;
                }
                KeyOutcome::Continue
            },
            Key::PageDown => {
                let mut k: usize = 0;
                while k < 5
                    invariant
                        k <= 5,
                        self.messages@ == old(self).messages@,
                        self.scroll == scrolled_down_n(old(self).scroll as int, k as nat),
                        self.panel == old(self).panel,
                        self.input@ == old(self).input@,
                        self.cursor == old(self).cursor,
                        self.i18n == old(self).i18n,
                    decreases 5 - k,
                {
                    proof { lemma_scrolled_down_n_step(old(self).scroll as int, k as nat); }
                    self.scroll_down();
                    k = k + 1;
                }
                KeyOutcome::Continue
            },
            Key::Tab => {
                self.next_panel();
                KeyOutcome::Continue
            },
            Key::BackTab => {
                self.prev_panel();
                KeyOutcome::Continue
            },
            Key::Other => KeyOutcome::Continue,
        }
    }
}

proof fn lemma_scrolled_up_n_step(scroll: int, len: int, n: nat)
    ensures
        scrolled_up_n(scroll, len, n + 1) == scrolled_up(scrolled_up_n(scroll, len, n), len),
    decreases n,
{
    reveal_with_fuel(scrolled_up_n, 2);
    if n > 0 {
        lemma_scrolled_up_n_step(scrolled_up(scroll, len), len, (n - 1) as nat);
    }
}

proof fn lemma_scrolled_down_n_step(scroll: int, n: nat)
    ensures
        scrolled_down_n(scroll, n + 1) == scrolled_down(scrolled_down_n(scroll, n)),
    decreases n,
{
    reveal_with_fuel(scrolled_down_n, 2);
    if n > 0 {
        lemma_scrolled_down_n_step(scrolled_down(scroll), (n - 1) as nat);
    }
}

/// Where a management command goes: the daemon endpoint, the text shown
/// when the answer cannot be read, and the text shown when the daemon does
/// not answer. `/scene(s)` lists scenes, `/memory` and every `/mem…` search
/// memory, `/status` and `/config` read those; nothing else is known.
pub open spec fn command_target(input: Seq<char>) -> Option<(Seq<char>, Seq<char>, Seq<char>)> {
    if input == "/scene"@ || input == "/scenes"@ {
        Some(("/api/scenes"@, "场景列表获取失败"@, "⚠️ API 不可用，请启动 daemon"@))
    } else if input == "/memory"@ || has_prefix(input, "/mem"@) {
        Some(("/api/memory/search?q=*"@, "记忆检索失败"@, "⚠️ API 不可用"@))
    } else if input == "/status"@ {
        Some(("/api/status"@, "状态获取失败"@, "⚠️ API 不可用"@))
    } else if input == "/config"@ {
        Some(("/api/config"@, "配置获取失败"@, "⚠️ API 不可用"@))
    } else {
        None
    }
}

/// How a management command is carried out.
#[derive(Debug, Clone, PartialEq, Eq)]
pub enum CommandRoute {
    /// Fetch `path` from the daemon and show its answer; show `read_failed`
    /// when the answer cannot be read and `unreachable` when there is none.
    Fetch { path: &'static str, read_failed: &'static str, unreachable: &'static str },
    /// An unknown command, with the text shown for it.
    Unknown(String),
}

/// Decides how a management command is carried out.
pub fn route_command(input: &str) -> (r: CommandRoute)
    ensures
        match r {
            CommandRoute::Fetch { path, read_failed, unreachable } =>
                command_target(input@) == Some((path@, read_failed@, unreachable@)),
            CommandRoute::Unknown(m) => command_target(input@) is None && m@ == "未知命令: "@ + input@,
        },
{
    if str_eq(input, "/scene") || str_eq(input, "/scenes") {
        CommandRoute::Fetch { path: "/api/scenes", read_failed: "场景列表获取失败", unreachable: "⚠️ API 不可用，请启动 daemon" }
    } else if str_eq(input, "/memory") || starts_with_str(input, "/mem") {
        CommandRoute::Fetch { path: "/api/memory/search?q=*", read_failed: "记忆检索失败", unreachable: "⚠️ API 不可用" }
    } else if str_eq(input, "/status") {
        CommandRoute::Fetch { path: "/api/status", read_failed: "状态获取失败", unreachable: "⚠️ API 不可用" }
    } else if str_eq(input, "/config") {
        CommandRoute::Fetch { path: "/api/config", read_failed: "配置获取失败", unreachable: "⚠️ API 不可用" }
    } else {
        CommandRoute::Unknown(crate::text::concat("未知命令: ", input))
    }
}

/// The window of the chat log shown in a chat area of `rows` lines (two of
/// which are its border), scrolled back by `scroll` messages: positions
/// `start..end` of the log, oldest first.
pub open spec fn visible_window(len: int, scroll: int, rows: int) -> (int, int) {
    let end = if scroll < len { len - scroll } else { 0 };
    let shown = if rows >= 2 { rows - 2 } else { 0 };
    let start = if end > shown { end - shown } else { 0 };
    (start, end)
}

/// The position of a panel among the tabs.
pub open spec fn panel_position(p: Panel) -> usize {
    match p {
        Panel::Chat => 0,
        Panel::Scenes => 1,
        Panel::Trust => 2,
        Panel::Status => 3,
    }
}

impl App {
    /// The messages shown in a chat area of `rows` lines: the newest ones
    /// that fit inside the border after skipping the `scroll` newest.
    pub fn visible_messages(&self, rows: usize) -> (r: Vec<&ChatMsg>)
        ensures
            r@.len() == visible_window(self.messages@.len() as int, self.scroll as int, rows as int).1
                - visible_window(self.messages@.len() as int, self.scroll as int, rows as int).0,
            forall|k: int| 0 <= k < r@.len() ==> *r@[k] == self.messages@[visible_window(
                self.messages@.len() as int,
                self.scroll as int,
                rows as int,
            ).0 + k],
    {
        let len: usize = self.messages.len();
        let end: usize = if self.scroll < len { len - self.scroll } else { 0 };
        let shown: usize = if rows >= 2 { rows - 2 } else { 0 };
        let start: usize = if end > shown { end - shown } else { 0 };
        let mut r: Vec<&ChatMsg> = Vec::new();
        let mut i: usize = start;
        while i < end
            invariant
                start <= i <= end,
                end <= self.messages@.len(),
                r@.len() == i - start,
                forall|k: int| 0 <= k < r@.len() ==> *r@[k] == self.messages@[start + k],
            decreases end - i,
        {
            r.push(&self.messages[i]);
            i = i + 1;
        }
        r
    }

    /// The position of the current panel among the tabs.
    pub fn panel_index(&self) -> (r: usize)
        ensures
            r == panel_position(self.panel),
    {
        match self.panel {
            Panel::Chat => 0,
            Panel::Scenes => 1,
            Panel::Trust => 2,
            Panel::Status => 3,
        }
    }
}

} // verus!
