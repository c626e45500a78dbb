//! The terminal front end's state and the decisions its keys make. Drawing,
//! the clock and the file system are the caller's.
use vstd::prelude::*;
use vstd::multiset::Multiset;
use crate::text::{
    chars_of, lower_eq, lower_eq_str, parse_u32_chars, parse_u32_spec, parse_u8_chars, parse_u8_spec,
    decimal, decimal_chars, starts_with_chars, str_eq_chars, string_from_chars, trim_chars, trim_spec,
};
use crate::transfer::chunker::{lex_le, lemma_lex_le_total, lemma_lex_le_trans};

verus! {

/// The screen on show.
#[derive(Clone, Copy, PartialEq, Eq, Structural)]
pub enum ActiveView {
    LoadingScreen,
    FileBrowser,
    ReceiveInput,
    TransferDashboard,
    ConfigEditor,
    History,
}

/// The screen the app opens on once loaded: the receive screen when the
/// configured start mode is `receive`, the file browser otherwise.
pub fn initial_view(default_mode: &str) -> (v: ActiveView)
    ensures
        v == (if default_mode@ == "receive"@ {
            ActiveView::ReceiveInput
        } else {
            ActiveView::FileBrowser
        }),
{
    let receive = chars_of("receive");
    if str_eq_chars(default_mode, &receive) {
        ActiveView::ReceiveInput
    } else {
        ActiveView::FileBrowser
    }
}

/// A color scheme.
#[derive(Clone, Copy, PartialEq, Eq, Structural)]
pub enum Theme {
    Cyberpunk,
    Matrix,
    Nord,
    Monochrome,
}

/// The colors a theme paints with, each as red, green and blue.
#[derive(Clone, Copy)]
pub struct Palette {
    pub primary: (u8, u8, u8),
    pub secondary: (u8, u8, u8),
    pub highlight: (u8, u8, u8),
    pub text: (u8, u8, u8),
    pub border: (u8, u8, u8),
}

/// The palette of each theme; the secondary color is the theme's accent.
pub open spec fn palette_of(t: Theme) -> Palette {
    match t {
        Theme::Matrix => Palette {
            primary: (0, 255, 0),
            secondary: (0, 150, 0),
            highlight: (200, 255, 200),
            text: (0, 200, 0),
            border: (0, 50, 0),
        },
        Theme::Nord => Palette {
            primary: (136, 192, 208),
            secondary: (129, 161, 193),
            highlight: (236, 239, 244),
            text: (216, 222, 233),
            border: (76, 86, 106),
        },
        Theme::Monochrome => Palette {
            primary: (255, 255, 255),
            secondary: (204, 204, 204),
            highlight: (255, 255, 255),
            text: (220, 220, 220),
            border: (100, 100, 100),
        },
        Theme::Cyberpunk => Palette {
            primary: (255, 184, 0),
            secondary: (170, 144, 179),
            highlight: (254, 247, 228),
            text: (200, 200, 200),
            border: (60, 60, 60),
        },
    }
}

/// The palette of a theme.
pub fn palette(t: Theme) -> (p: Palette)
    ensures
        p == palette_of(t),
{
    match t {
        Theme::Matrix => Palette {
            primary: (0, 255, 0),
            secondary: (0, 150, 0),
            highlight: (200, 255, 200),
            text: (0, 200, 0),
            border: (0, 50, 0),
        },
        Theme::Nord => Palette {
            primary: (136, 192, 208),
            secondary: (129, 161, 193),
            highlight: (236, 239, 244),
            text: (216, 222, 233),
            border: (76, 86, 106),
        },
        Theme::Monochrome => Palette {
            primary: (255, 255, 255),
            secondary: (204, 204, 204),
            highlight: (255, 255, 255),
            text: (220, 220, 220),
            border: (100, 100, 100),
        },
        Theme::Cyberpunk => Palette {
            primary: (255, 184, 0),
            secondary: (170, 144, 179),
            highlight: (254, 247, 228),
            text: (200, 200, 200),
            border: (60, 60, 60),
        },
    }
}

/// The name a theme is stored under.
pub open spec fn theme_name(t: Theme) -> Seq<char> {
    match t {
        Theme::Cyberpunk => "cyberpunk"@,
        Theme::Matrix => "matrix"@,
        Theme::Nord => "nord"@,
        Theme::Monochrome => "monochrome"@,
    }
}

/// The theme a stored name selects: a theme's name in any case selects it;
/// anything else selects the first theme.
pub open spec fn theme_named(s: Seq<char>) -> Theme {
    if lower_eq(s, "matrix"@) {
        Theme::Matrix
    } else if lower_eq(s, "nord"@) {
        Theme::Nord
    } else if lower_eq(s, "monochrome"@) {
        Theme::Monochrome
    } else {
        Theme::Cyberpunk
    }
}

impl Theme {
    /// The theme `s` names, in any case; the first theme for an unknown name.
    pub fn from_str(s: &str) -> (t: Theme)
        ensures
            t == theme_named(s@),
    {
        let c = chars_of(s);
        if lower_eq_str(&c, "matrix") {
            Theme::Matrix
        } else if lower_eq_str(&c, "nord") {
            Theme::Nord
        } else if lower_eq_str(&c, "monochrome") {
            Theme::Monochrome
        } else {
            Theme::Cyberpunk
        }
    }

    /// The theme's stored name.
    pub fn to_string(&self) -> (s: String)
        ensures
            s@ == theme_name(*self),
    {
        match self {
            Theme::Cyberpunk => "cyberpunk".to_string(),
            Theme::Matrix => "matrix".to_string(),
            Theme::Nord => "nord".to_string(),
            Theme::Monochrome => "monochrome".to_string(),
        }
    }
}

proof fn lemma_lower_eq_self(s: Seq<char>)
    requires
        forall|i: int| 0 <= i < s.len() ==> 'a' <= #[trigger] s[i] <= 'z',
    ensures
        lower_eq(s, s),
{
}

/// A stored theme name reads back as its theme.
pub proof fn lemma_theme_roundtrip(t: Theme)
    ensures
        theme_named(theme_name(t)) == t,
{
    reveal_strlit("cyberpunk");
    reveal_strlit("matrix");
    reveal_strlit("nord");
    reveal_strlit("monochrome");
    lemma_lower_eq_self(theme_name(t));
}

/// Which list the file browser's arrows move in.
#[derive(Clone, Copy, PartialEq, Eq, Structural)]
pub enum BrowserPane {
    Sidebar,
    FileList,
}

/// A place the sidebar jumps to.
pub struct SidebarItem {
    pub name: String,
    pub path: String,
}

/// What the transfer task reports.
pub enum EngineEvent {
    /// A send started with this code phrase.
    InitSend(String),
    /// A receive started with this code phrase.
    InitReceive(String),
    Status(String),
    Progress { current: u64, total: u64 },
    Done,
    Error(String),
}

/// A key press, as far as the screens tell keys apart.
#[derive(Clone, Copy, PartialEq, Eq, Structural)]
pub enum Key {
    Char(char),
    Up,
    Down,
    Left,
    Right,
    Tab,
    Enter,
    Esc,
    Backspace,
    Other,
}

/// `String::push`: the character is appended.
#[verifier::external_body]
fn push_char(s: &mut String, c: char)
    ensures
        final(s)@ == old(s)@.push(c),
{
    s.push(c);
}

/// `String::pop`: the last character, if any, is removed (and dropped).
#[verifier::external_body]
fn pop_char(s: &mut String)
    ensures
        final(s)@ == if old(s)@.len() > 0 {
            old(s)@.drop_last()
        } else {
            old(s)@
        },
{
    s.pop();
}

/// Text with its last character removed, if it has one.
pub open spec fn backspaced(s: Seq<char>) -> Seq<char> {
    if s.len() > 0 {
        s.drop_last()
    } else {
        s
    }
}

/// The history screen after `key`, scrolled to `scroll` of `len` entries:
/// the new scroll position, and whether the screen is left (Esc, `q`, `Q`).
pub open spec fn history_after(scroll: usize, len: usize, key: Key) -> (usize, bool) {
    match key {
        Key::Esc | Key::Char('q') | Key::Char('Q') => (scroll, true),
        Key::Up => (if scroll > 0 { (scroll - 1) as usize } else { scroll }, false),
        Key::Down => (if scroll + 1 < len { (scroll + 1) as usize } else { scroll }, false),
        _ => (scroll, false),
    }
}

/// Handles a key on the history screen.
pub fn history_key(scroll: usize, len: usize, key: Key) -> (r: (usize, bool))
    ensures
        r == history_after(scroll, len, key),
{
    match key {
        Key::Esc | Key::Char('q') | Key::Char('Q') => (scroll, true),
        Key::Up => (if scroll > 0 { scroll - 1 } else { scroll }, false),
        Key::Down => (if len > 0 && scroll < len - 1 { scroll + 1 } else { scroll }, false),
        _ => (scroll, false),
    }
}

/// What a key on the receive screen leads to.
pub enum ReceiveOutcome {
    Stay,
    /// Back to the file browser.
    Back,
    /// Start receiving with this code (the typed text, trimmed).
    Start(String),
}

/// Handles a key on the receive screen, where `code` is being typed: Esc goes
/// back, Enter starts with the trimmed code unless it is blank, Backspace and
/// characters edit the code.
pub fn receive_key(code: &mut String, key: Key) -> (r: ReceiveOutcome)
    ensures
        final(code)@ == match key {
            Key::Backspace => backspaced(old(code)@),
            Key::Char(c) => old(code)@.push(c),
            _ => old(code)@,
        },
        key is Esc ==> r is Back,
        key is Enter && trim_spec(old(code)@).len() > 0 ==> (r matches ReceiveOutcome::Start(t) && t@ == trim_spec(old(code)@)),
        key is Enter && trim_spec(old(code)@).len() == 0 ==> r is Stay,
        !(key is Esc) && !(key is Enter) ==> r is Stay,
{
    match key {
        Key::Esc => ReceiveOutcome::Back,
        Key::Enter => {
            let c = chars_of(code.as_str());
            let t = trim_chars(&c);
            if t.len() > 0 {
                ReceiveOutcome::Start(string_from_chars(t.as_slice()))
            } else {
                ReceiveOutcome::Stay
            }
        },
        Key::Backspace => {
            pop_char(code);
            ReceiveOutcome::Stay
        },
        Key::Char(ch) => {
            push_char(code, ch);
            ReceiveOutcome::Stay
        },
        _ => ReceiveOutcome::Stay,
    }
}

/// What a key on the file browser asks for.
#[derive(Clone, Copy, PartialEq, Eq, Structural)]
pub enum BrowserAction {
    Quit,
    OpenReceive,
    Up,
    Down,
    ToSidebar,
    ToFileList,
    SwitchPane,
    Enter,
    Send,
    ToggleSelect,
    OpenHistory,
    OpenConfig,
    Nothing,
}

/// The file browser's key map.
pub open spec fn browser_action(key: Key) -> BrowserAction {
    match key {
        Key::Char('q') | Key::Char('Q') => BrowserAction::Quit,
        Key::Char('r') | Key::Char('R') => BrowserAction::OpenReceive,
        Key::Up => BrowserAction::Up,
        Key::Down => BrowserAction::Down,
        Key::Left => BrowserAction::ToSidebar,
        Key::Right => BrowserAction::ToFileList,
        Key::Tab => BrowserAction::SwitchPane,
        Key::Enter => BrowserAction::Enter,
        Key::Char('s') | Key::Char('S') => BrowserAction::Send,
        Key::Char(' ') => BrowserAction::ToggleSelect,
        Key::Char('h') | Key::Char('H') => BrowserAction::OpenHistory,
        Key::Char('c') | Key::Char('C') => BrowserAction::OpenConfig,
        _ => BrowserAction::Nothing,
    }
}

/// What a key on the file browser asks for.
pub fn browser_key(key: Key) -> (a: BrowserAction)
    ensures
        a == browser_action(key),
{
    match key {
        Key::Char('q') | Key::Char('Q') => BrowserAction::Quit,
        Key::Char('r') | Key::Char('R') => BrowserAction::OpenReceive,
        Key::Up => BrowserAction::Up,
        Key::Down => BrowserAction::Down,
        Key::Left => BrowserAction::ToSidebar,
        Key::Right => BrowserAction::ToFileList,
        Key::Tab => BrowserAction::SwitchPane,
        Key::Enter => BrowserAction::Enter,
        Key::Char('s') | Key::Char('S') => BrowserAction::Send,
        Key::Char(' ') => BrowserAction::ToggleSelect,
        Key::Char('h') | Key::Char('H') => BrowserAction::OpenHistory,
        Key::Char('c') | Key::Char('C') => BrowserAction::OpenConfig,
        _ => BrowserAction::Nothing,
    }
}

/// What a key on the transfer dashboard asks for: `q` or `Q` quits, Esc cancels the
/// transfer and goes back to the browser.
pub enum DashboardAction {
    Quit,
    Cancel,
    Nothing,
}

/// The dashboard's key map.
pub fn dashboard_key(key: Key) -> (a: DashboardAction)
    ensures
        (key == Key::Char('q') || key == Key::Char('Q')) ==> a is Quit,
        key is Esc ==> a is Cancel,
        key != Key::Char('q') && key != Key::Char('Q') && !(key is Esc) ==> a is Nothing,
{
    match key {
        Key::Char('q') | Key::Char('Q') => DashboardAction::Quit,
        Key::Esc => DashboardAction::Cancel,
        _ => DashboardAction::Nothing,
    }
}


/// The config editor's fields, in display order: relay, LAN off, download
/// folder, start screen, parallel streams, chunk size (KiB), theme. The one
/// selected is `selected_index`; `is_editing` while a text field is typed in.
pub struct ConfigState {
    pub relay: String,
    pub no_lan: bool,
    pub download_dir: String,
    pub default_mode: String,
    pub parallel_streams: String,
    pub chunk_size_kb: String,
    pub theme: String,
    pub selected_index: usize,
    pub is_editing: bool,
}

/// A config editor with its texts taken by their characters.
pub struct ConfigView {
    pub relay: Seq<char>,
    pub no_lan: bool,
    pub download_dir: Seq<char>,
    pub default_mode: Seq<char>,
    pub parallel_streams: Seq<char>,
    pub chunk_size_kb: Seq<char>,
    pub theme: Seq<char>,
    pub selected_index: usize,
    pub is_editing: bool,
}

impl View for ConfigState {
    type V = ConfigView;

    open spec fn view(&self) -> ConfigView {
        ConfigView {
            relay: self.relay@,
            no_lan: self.no_lan,
            download_dir: self.download_dir@,
            default_mode: self.default_mode@,
            parallel_streams: self.parallel_streams@,
            chunk_size_kb: self.chunk_size_kb@,
            theme: self.theme@,
            selected_index: self.selected_index,
            is_editing: self.is_editing,
        }
    }
}

impl Default for ConfigState {
    fn default() -> (c: Self)
        ensures
            c@.relay == Seq::<char>::empty(),
            !c@.no_lan,
            c@.download_dir == Seq::<char>::empty(),
            c@.default_mode == "browser"@,
            c@.parallel_streams == "4"@,
            c@.chunk_size_kb == "1024"@,
            c@.theme == "cyberpunk"@,
            c@.selected_index == 0,
            !c@.is_editing,
    {
        ConfigState {
            relay: String::new(),
            no_lan: false,
            download_dir: String::new(),
            default_mode: "browser".to_string(),
            parallel_streams: "4".to_string(),
            chunk_size_kb: "1024".to_string(),
            theme: "cyberpunk".to_string(),
            selected_index: 0,
            is_editing: false,
        }
    }
}

/// The last field's index.
pub const LAST_CONFIG_FIELD: usize = 6;

/// The theme at position `i` of the editor's cycle.
pub open spec fn theme_at(i: int) -> Theme {
    if i == 1 {
        Theme::Matrix
    } else if i == 2 {
        Theme::Nord
    } else if i == 3 {
        Theme::Monochrome
    } else {
        Theme::Cyberpunk
    }
}

/// Where a theme text sits in the cycle: the position of the theme whose
/// name it is, in any case; the first position for an unknown text.
pub open spec fn theme_index(s: Seq<char>) -> int {
    if lower_eq(s, "matrix"@) {
        1
    } else if lower_eq(s, "nord"@) {
        2
    } else if lower_eq(s, "monochrome"@) {
        3
    } else {
        0
    }
}

/// The theme name that follows `s` in the cycle.
pub open spec fn next_theme_name(s: Seq<char>) -> Seq<char> {
    theme_name(theme_at((theme_index(s) + 1) % 4))
}

/// `v` with the selected text field changed by `f` (no change when the
/// selected field holds no text).
pub open spec fn edit_selected(v: ConfigView, f: spec_fn(Seq<char>) -> Seq<char>) -> ConfigView {
    if v.selected_index == 0 {
        ConfigView { relay: f(v.relay), ..v }
    } else if v.selected_index == 2 {
        ConfigView { download_dir: f(v.download_dir), ..v }
    } else if v.selected_index == 4 {
        ConfigView { parallel_streams: f(v.parallel_streams), ..v }
    } else if v.selected_index == 5 {
        ConfigView { chunk_size_kb: f(v.chunk_size_kb), ..v }
    } else {
        v
    }
}

/// The editor after `key`, and whether the key asks to save and leave.
/// While a field is edited, Esc or Enter ends the edit and Backspace and
/// characters change the field. Otherwise Esc saves and leaves, the arrows
/// move between the fields, and Enter flips LAN off, switches the start
/// screen between `browser` and `receive`, moves to the next theme, or
/// starts editing a text field.
pub open spec fn config_after(v: ConfigView, key: Key) -> (ConfigView, bool) {
    if v.is_editing {
        match key {
            Key::Esc | Key::Enter => (ConfigView { is_editing: false, ..v }, false),
            Key::Backspace => (edit_selected(v, |s: Seq<char>| backspaced(s)), false),
            Key::Char(c) => (edit_selected(v, |s: Seq<char>| s.push(c)), false),
            _ => (v, false),
        }
    } else {
        match key {
            Key::Esc => (v, true),
            Key::Up => (
                ConfigView {
                    selected_index: if v.selected_index > 0 {
                        (v.selected_index - 1) as usize
                    } else {
                        v.selected_index
                    },
                    ..v
                },
                false,
            ),
            Key::Down => (
                ConfigView {
                    selected_index: if v.selected_index < LAST_CONFIG_FIELD {
                        (v.selected_index + 1) as usize
                    } else {
                        v.selected_index
                    },
                    ..v
                },
                false,
            ),
            Key::Enter => (
                if v.selected_index == 1 {
                    ConfigView { no_lan: !v.no_lan, ..v }
                } else if v.selected_index == 3 {
                    ConfigView {
                        default_mode: if v.default_mode == "browser"@ {
                            "receive"@
                        } else {
                            "browser"@
                        },
                        ..v
                    }
                } else if v.selected_index == 6 {
                    ConfigView { theme: next_theme_name(v.theme), ..v }
                } else {
                    ConfigView { is_editing: true, ..v }
                },
                false,
            ),
            _ => (v, false),
        }
    }
}

fn theme_index_exec(s: &String) -> (i: usize)
    ensures
        i == theme_index(s@),
{
    let c = chars_of(s.as_str());
    if lower_eq_str(&c, "matrix") {
        1
    } else if lower_eq_str(&c, "nord") {
        2
    } else if lower_eq_str(&c, "monochrome") {
        3
    } else {
        0
    }
}

fn theme_name_at(i: usize) -> (s: String)
    requires
        i < 4,
    ensures
        s@ == theme_name(theme_at(i as int)),
{
    if i == 1 {
        "matrix".to_string()
    } else if i == 2 {
        "nord".to_string()
    } else if i == 3 {
        "monochrome".to_string()
    } else {
        "cyberpunk".to_string()
    }
}

impl ConfigState {
    fn edit_text(&mut self, key: Key)
        requires
            old(self)@.is_editing,
            key is Backspace || key is Char,
        ensures
            final(self)@ == config_after(old(self)@, key).0,
    {
        let idx = self.selected_index;
        if idx == 0 {
            match key {
                Key::Char(c) => push_char(&mut self.relay, c),
                _ => pop_char(&mut self.relay),
            }
        } else if idx == 2 {
            match key {
                Key::Char(c) => push_char(&mut self.download_dir, c),
                _ => pop_char(&mut self.download_dir),
            }
        } else if idx == 4 {
            match key {
                Key::Char(c) => push_char(&mut self.parallel_streams, c),
                _ => pop_char(&mut self.parallel_streams),
            }
        } else if idx == 5 {
            match key {
                Key::Char(c) => push_char(&mut self.chunk_size_kb, c),
                _ => pop_char(&mut self.chunk_size_kb),
            }
        }
    }

    /// Handles a key in the config editor; `true` when it asks to save the
    /// settings and leave.
    pub fn on_key(&mut self, key: Key) -> (save: bool)
        ensures
            (final(self)@, save) == config_after(old(self)@, key),
    {
        if self.is_editing {
            match key {
                Key::Esc | Key::Enter => {
                    self.is_editing = false;
                },
                Key::Backspace | Key::Char(_) => {
                    self.edit_text(key);
                },
                _ => {},
            }
            false
        } else {
            match key {
                Key::Esc => {
                    return true;
                },
                Key::Up => {
                    if self.selected_index > 0 {
                        self.selected_index = self.selected_index - 1;
                    }
                },
                Key::Down => {
                    if self.selected_index < LAST_CONFIG_FIELD {
                        self.selected_index = self.selected_index + 1;
                    }
                },
                Key::Enter => {
                    if self.selected_index == 1 {
                        self.no_lan = !self.no_lan;
                    } else if self.selected_index == 3 {
                        let browser = chars_of("browser");
                        if str_eq_chars(self.default_mode.as_str(), &browser) {
                            self.default_mode = "receive".to_string();
                        } else {
                            self.default_mode = "browser".to_string();
                        }
                    } else if self.selected_index == 6 {
                        let i = theme_index_exec(&self.theme);
                        self.theme = theme_name_at((i + 1) % 4);
                    } else {
                        self.is_editing = true;
                    }
                },
                _ => {},
            }
            false
        }
    }
}

/// The settings the config editor saves on leaving.
pub struct TuiSettings {
    pub relay: Option<String>,
    pub no_lan: Option<bool>,
    pub download_dir: Option<String>,
    pub default_mode: Option<String>,
    pub parallel_streams: Option<u8>,
    pub chunk_size_kb: Option<u32>,
    pub theme: Option<String>,
}

impl ConfigState {
    /// What leaving the editor saves: every field, except a blank download
    /// folder (none is saved) and stream and chunk counts that do not parse
    /// (none is saved for them).
    pub fn settings(&self) -> (t: TuiSettings)
        ensures
            t.relay matches Some(r) && r@ == self.relay@,
            t.no_lan == Some(self.no_lan),
            trim_spec(self.download_dir@).len() == 0 ==> t.download_dir is None,
            trim_spec(self.download_dir@).len() > 0 ==> (t.download_dir matches Some(d) && d@ == self.download_dir@),
            t.default_mode matches Some(m) && m@ == self.default_mode@,
            t.parallel_streams == parse_u8_spec(self.parallel_streams@),
            t.chunk_size_kb == parse_u32_spec(self.chunk_size_kb@),
            t.theme matches Some(m) && m@ == self.theme@,
    {
        let dir = chars_of(self.download_dir.as_str());
        let trimmed = trim_chars(&dir);
        TuiSettings {
            relay: Some(self.relay.clone()),
            no_lan: Some(self.no_lan),
            download_dir: if trimmed.len() == 0 {
                None
            } else {
                Some(self.download_dir.clone())
            },
            default_mode: Some(self.default_mode.clone()),
            parallel_streams: parse_u8_chars(&chars_of(self.parallel_streams.as_str())),
            chunk_size_kb: parse_u32_chars(&chars_of(self.chunk_size_kb.as_str())),
            theme: Some(self.theme.clone()),
        }
    }
}

/// The selected field never leaves the list.
pub proof fn lemma_config_index_bounded(v: ConfigView, key: Key)
    requires
        v.selected_index <= LAST_CONFIG_FIELD,
    ensures
        config_after(v, key).0.selected_index <= LAST_CONFIG_FIELD,
{
}

/// Four presses of Enter on the theme field come back to the theme one
/// started from, when it is stored under its own name.
pub proof fn lemma_theme_cycle(t: Theme)
    ensures
        next_theme_name(next_theme_name(next_theme_name(next_theme_name(theme_name(t))))) == theme_name(t),
{
    reveal_strlit("cyberpunk");
    reveal_strlit("matrix");
    reveal_strlit("nord");
    reveal_strlit("monochrome");
    lemma_lower_eq_self(theme_name(Theme::Cyberpunk));
    lemma_lower_eq_self(theme_name(Theme::Matrix));
    lemma_lower_eq_self(theme_name(Theme::Nord));
    lemma_lower_eq_self(theme_name(Theme::Monochrome));
}

/// A directory entry as the browser lists it.
pub struct DirEntry {
    pub path: String,
    /// The last component of the path.
    pub name: String,
    pub is_dir: bool,
}

/// Whether `a` may be listed before `b`: directories before files, and by
/// name among directories and among files.
pub open spec fn listed_before(a: DirEntry, b: DirEntry) -> bool {
    ||| a.is_dir && !b.is_dir
    ||| a.is_dir == b.is_dir && lex_le(a.name@, b.name@)
}

/// Names ordered by their first difference: the one whose character is
/// smaller there comes first, and not the other way round.
proof fn lemma_first_difference_orders(a: Seq<char>, b: Seq<char>, k: int)
    requires
        0 <= k < a.len(),
        k < b.len(),
        forall|j: int| 0 <= j < k ==> a[j] == b[j],
        (a[k] as int) < (b[k] as int),
    ensures
        lex_le(a, b),
        !lex_le(b, a),
    decreases k,
{
    if k > 0 {
        assert forall|j: int| 0 <= j < k - 1 implies a.drop_first()[j] == b.drop_first()[j] by {
            assert(a[j + 1] == b[j + 1]);
        }
        assert(a[0] == b[0]);
        lemma_first_difference_orders(a.drop_first(), b.drop_first(), k - 1);
    }
}

/// A name that is a proper prefix of another comes before it.
proof fn lemma_prefix_orders(a: Seq<char>, b: Seq<char>)
    requires
        a.len() < b.len(),
        forall|j: int| 0 <= j < a.len() ==> a[j] == b[j],
    ensures
        lex_le(a, b),
        !lex_le(b, a),
    decreases a.len(),
{
    if a.len() > 0 {
        assert forall|j: int| 0 <= j < a.len() - 1 implies a.drop_first()[j] == b.drop_first()[j] by {
            assert(a[j + 1] == b[j + 1]);
        }
        assert(a[0] == b[0]);
        lemma_prefix_orders(a.drop_first(), b.drop_first());
    }
}

/// The listing order: every directory before every file, and among entries
/// of one kind, name order alone: at the first position where two names
/// differ the smaller character comes first (so `aa.txt` before `b.txt`),
/// and a name comes after its proper prefixes.
pub proof fn lemma_listing_order(a: DirEntry, b: DirEntry)
    ensures
        a.is_dir && !b.is_dir ==> listed_before(a, b) && !listed_before(b, a),
        a.is_dir == b.is_dir ==> forall|k: int|
            #![trigger a.name@[k], b.name@[k]]
            0 <= k < a.name@.len() && k < b.name@.len() && (forall|j: int| 0 <= j < k ==> a.name@[j] == b.name@[j])
                && (a.name@[k] as int) < (b.name@[k] as int) ==> listed_before(a, b) && !listed_before(b, a),
        a.is_dir == b.is_dir && a.name@.len() < b.name@.len() && (forall|j: int|
            0 <= j < a.name@.len() ==> a.name@[j] == b.name@[j]) ==> listed_before(a, b) && !listed_before(b, a),
{
    if a.is_dir == b.is_dir {
        assert forall|k: int|
            #![trigger a.name@[k], b.name@[k]]
            0 <= k < a.name@.len() && k < b.name@.len() && (forall|j: int| 0 <= j < k ==> a.name@[j] == b.name@[j])
                && (a.name@[k] as int) < (b.name@[k] as int) implies listed_before(a, b) && !listed_before(b, a) by {
            lemma_first_difference_orders(a.name@, b.name@, k);
        }
        if a.name@.len() < b.name@.len() && (forall|j: int| 0 <= j < a.name@.len() ==> a.name@[j] == b.name@[j]) {
            lemma_prefix_orders(a.name@, b.name@);
        }
    }
}

/// Entries in listing order.
pub open spec fn listing_sorted(s: Seq<DirEntry>) -> bool {
    forall|i: int, j: int| 0 <= i < j < s.len() ==> listed_before(#[trigger] s[i], #[trigger] s[j])
}

proof fn lemma_listed_total(a: DirEntry, b: DirEntry)
    ensures
        listed_before(a, b) || listed_before(b, a),
{
    lemma_lex_le_total(a.name@, b.name@);
}

proof fn lemma_listed_trans(a: DirEntry, b: DirEntry, c: DirEntry)
    requires
        listed_before(a, b),
        listed_before(b, c),
    ensures
        listed_before(a, c),
{
    if a.is_dir == b.is_dir && b.is_dir == c.is_dir {
        lemma_lex_le_trans(a.name@, b.name@, c.name@);
    }
}

/// Whether `a` comes no later than `b` in character order.
fn lex_le_chars(a: &Vec<char>, b: &Vec<char>) -> (r: bool)
    ensures
        r == lex_le(a@, b@),
{
    let mut i: usize = 0;
    assert(a@.skip(0) =~= a@);
    assert(b@.skip(0) =~= b@);
    while i < a.len() && i < b.len() && a[i] == b[i]
        invariant
            i <= a@.len(),
            i <= b@.len(),
            lex_le(a@, b@) == lex_le(a@.skip(i as int), b@.skip(i as int)),
        decreases a@.len() - i,
    {
        proof {
            assert(a@.skip(i as int).drop_first() =~= a@.skip(i + 1));
            assert(b@.skip(i as int).drop_first() =~= b@.skip(i + 1));
            assert(a@.skip(i as int)[0] == a@[i as int]);
            assert(b@.skip(i as int)[0] == b@[i as int]);
        }
        i = i + 1;
    }
    if i == a.len() {
        true
    } else if i == b.len() {
        false
    } else {
        proof {
            assert(a@.skip(i as int)[0] == a@[i as int]);
            assert(b@.skip(i as int)[0] == b@[i as int]);
        }
        a[i] < b[i]
    }
}

fn listed_before_exec(a: &DirEntry, b: &DirEntry) -> (r: bool)
    ensures
        r == listed_before(*a, *b),
{
    if a.is_dir != b.is_dir {
        a.is_dir
    } else {
        lex_le_chars(&chars_of(a.name.as_str()), &chars_of(b.name.as_str()))
    }
}

/// Where `e` goes in the sorted `out`: after every entry that may precede it.
fn insert_position(out: &Vec<DirEntry>, e: &DirEntry) -> (p: usize)
    requires
        listing_sorted(out@),
    ensures
        p <= out@.len(),
        forall|k: int| 0 <= k < p ==> listed_before(#[trigger] out@[k], *e),
        forall|k: int| p <= k < out@.len() ==> listed_before(*e, #[trigger] out@[k]),
{
    let mut k: usize = 0;
    while k < out.len()
        invariant
            k <= out@.len(),
            listing_sorted(out@),
            forall|j: int| 0 <= j < k ==> listed_before(#[trigger] out@[j], *e),
        decreases out@.len() - k,
    {
        if !listed_before_exec(&out[k], e) {
            proof {
                lemma_listed_total(out@[k as int], *e);
                assert forall|j: int| k <= j < out@.len() implies listed_before(*e, #[trigger] out@[j]) by {
                    if j > k {
                        assert(listed_before(out@[k as int], out@[j]));
                        lemma_listed_trans(*e, out@[k as int], out@[j]);
                    }
                }
            }
            return k;
        }
        k = k + 1;
    }
    k
}

/// Lists entries directories first, then by name.
pub fn sort_listing(entries: Vec<DirEntry>) -> (out: Vec<DirEntry>)
    ensures
        out@.to_multiset() == entries@.to_multiset(),
        listing_sorted(out@),
{
    let mut rest = entries;
    let mut out: Vec<DirEntry> = Vec::new();
    proof {
        assert(out@.to_multiset() =~= Multiset::<DirEntry>::empty()) by {
            broadcast use vstd::seq_lib::to_multiset_len;
            assert(out@.to_multiset().len() == 0);
        }
    }
    while rest.len() > 0
        invariant
            out@.to_multiset().add(rest@.to_multiset()) == entries@.to_multiset(),
            listing_sorted(out@),
        decreases rest@.len(),
    {
        let ghost before_rest = rest@;
        let ghost before_out = out@;
        let e = rest.pop().unwrap();
        proof {
            assert(before_rest =~= rest@.push(e));
        }
        let p = insert_position(&out, &e);
        out.insert(p, e);
        proof {
            assert(out@ =~= before_out.insert(p as int, e));
            assert forall|i: int, j: int| 0 <= i < j < out@.len() implies listed_before(#[trigger] out@[i], #[trigger] out@[j]) by {
                if i < p && j < p {
                    assert(out@[i] == before_out[i] && out@[j] == before_out[j]);
                } else if i < p && j == p {
                } else if i < p {
                    assert(out@[j] == before_out[j - 1]);
                    assert(out@[i] == before_out[i]);
                    assert(listed_before(before_out[i], e));
                    lemma_listed_trans(before_out[i], e, before_out[j - 1]);
                } else if i == p {
                    assert(out@[j] == before_out[j - 1]);
                } else {
                    assert(out@[i] == before_out[i - 1] && out@[j] == before_out[j - 1]);
                }
            }
            vstd::seq_lib::to_multiset_insert(before_out, p as int, e);
            vstd::seq_lib::to_multiset_build(rest@, e);
            assert(out@.to_multiset() == before_out.to_multiset().insert(e));
            assert(before_rest.to_multiset() == rest@.to_multiset().insert(e));
            assert(out@.to_multiset().add(rest@.to_multiset()) =~= before_out.to_multiset().add(before_rest.to_multiset())) by {
                broadcast use vstd::multiset::group_multiset_axioms;
            }
        }
    }
    proof {
        assert(rest@.to_multiset() =~= Multiset::<DirEntry>::empty()) by {
            broadcast use vstd::seq_lib::to_multiset_len;
            assert(rest@.len() == 0);
            assert(rest@.to_multiset().len() == 0);
        }
        assert(out@.to_multiset().add(rest@.to_multiset()) =~= out@.to_multiset());
    }
    out
}


/// The index after `i` in a list of `n`, wrapping to the first.
pub open spec fn next_index(i: usize, n: usize) -> usize {
    if n == 0 {
        i
    } else {
        ((i + 1) % (n as int)) as usize
    }
}

/// The index before `i` in a list of `n`, wrapping to the last.
pub open spec fn prev_index(i: usize, n: usize) -> usize {
    if n == 0 {
        i
    } else if i > 0 {
        (i - 1) as usize
    } else {
        (n - 1) as usize
    }
}

/// Moving down then up, or up then down, comes back to the same entry.
pub proof fn lemma_next_prev_inverse(i: usize, n: usize)
    requires
        i < n,
    ensures
        prev_index(next_index(i, n), n) == i,
        next_index(prev_index(i, n), n) == i,
{
    if i + 1 < n {
        vstd::arithmetic::div_mod::lemma_small_mod((i + 1) as nat, n as nat);
    } else {
        vstd::arithmetic::div_mod::lemma_mod_self_0(n as int);
    }
    if i == 0 {
        vstd::arithmetic::div_mod::lemma_mod_self_0(n as int);
    } else {
        vstd::arithmetic::div_mod::lemma_small_mod(i as nat, n as nat);
    }
}

/// The texts of a list, as a set.
pub open spec fn text_set(s: Seq<String>) -> Set<Seq<char>> {
    s.map_values(|x: String| x@).to_set()
}

/// No text is listed twice.
pub open spec fn texts_distinct(s: Seq<String>) -> bool {
    forall|i: int, j: int| 0 <= i < j < s.len() ==> (#[trigger] s[i])@ != (#[trigger] s[j])@
}

/// What Enter on the file list asks for.
pub enum EnterPlan {
    Nothing,
    /// Go to the parent directory.
    Parent,
    /// Open this path if it is a directory.
    Open(String),
    /// Jump to this sidebar place.
    Jump(String),
}

/// The file browser: the listing of the current directory with its cursor,
/// the sidebar with its cursor, the pane the arrows move in, and the paths
/// picked for a batch send.
pub struct Browser {
    pub files: Vec<String>,
    pub selected_file_index: usize,
    pub pane: BrowserPane,
    pub sidebar_items: Vec<SidebarItem>,
    pub selected_sidebar_index: usize,
    pub selected_files: Vec<String>,
}

/// The entry that stands for the parent directory.
pub open spec fn parent_entry() -> Seq<char> {
    ".."@
}

impl Browser {
    /// The cursors are on entries of non-empty lists, and no path is picked
    /// twice.
    pub open spec fn wf(&self) -> bool {
        &&& (self.files@.len() > 0 ==> self.selected_file_index < self.files@.len())
        &&& (self.sidebar_items@.len() > 0 ==> self.selected_sidebar_index < self.sidebar_items@.len())
        &&& texts_distinct(self.selected_files@)
    }

    /// A browser on the sidebar's places, with an empty listing, the file
    /// list active and nothing picked.
    pub fn new(sidebar_items: Vec<SidebarItem>) -> (b: Self)
        ensures
            b.wf(),
            b.files@.len() == 0,
            b.sidebar_items@ == sidebar_items@,
            b.pane == BrowserPane::FileList,
            b.selected_files@.len() == 0,
    {
        Browser {
            files: Vec::new(),
            selected_file_index: 0,
            pane: BrowserPane::FileList,
            sidebar_items,
            selected_sidebar_index: 0,
            selected_files: Vec::new(),
        }
    }

    /// Lists a directory: `..` first when it has a parent, then its entries
    /// directories first and by name; the cursor goes to the top.
    pub fn refresh(&mut self, has_parent: bool, entries: Vec<DirEntry>)
        requires
            old(self).wf(),
        ensures
            final(self).wf(),
            final(self).selected_file_index == 0,
            exists|sorted: Seq<DirEntry>|
                #![trigger sorted.to_multiset()]
                sorted.to_multiset() == entries@.to_multiset() && listing_sorted(sorted) && final(self).files@.map_values(|x: String| x@)
                    == (if has_parent { seq![parent_entry()] } else { Seq::<Seq<char>>::empty() }) + sorted.map_values(|e: DirEntry| e.path@),
            final(self).pane == old(self).pane,
            final(self).sidebar_items@ == old(self).sidebar_items@,
            final(self).selected_sidebar_index == old(self).selected_sidebar_index,
            final(self).selected_files@ == old(self).selected_files@,
    {
        let sorted = sort_listing(entries);
        let mut files: Vec<String> = Vec::new();
        if has_parent {
            files.push("..".to_string());
        }
        let ghost head = files@.map_values(|x: String| x@);
        proof {
            assert(head =~= if has_parent { seq![parent_entry()] } else { Seq::<Seq<char>>::empty() });
        }
        let mut k: usize = 0;
        while k < sorted.len()
            invariant
                k <= sorted@.len(),
                files@.map_values(|x: String| x@) == head + sorted@.take(k as int).map_values(|e: DirEntry| e.path@),
            decreases sorted@.len() - k,
        {
            let ghost before = files@.map_values(|x: String| x@);
            files.push(sorted[k].path.clone());
            proof {
                assert(files@.map_values(|x: String| x@) =~= before.push(sorted@[k as int].path@));
                assert(sorted@.take(k + 1).map_values(|e: DirEntry| e.path@) =~= sorted@.take(k as int).map_values(
                    |e: DirEntry| e.path@,
                ).push(sorted@[k as int].path@));
            }
            k = k + 1;
        }
        proof {
            assert(sorted@.take(sorted@.len() as int) =~= sorted@);
        }
        self.files = files;
        self.selected_file_index = 0;
    }

    /// Moves the file cursor down, wrapping to the top.
    pub fn next_file(&mut self)
        requires
            old(self).wf(),
        ensures
            final(self).wf(),
            final(self).selected_file_index == next_index(old(self).selected_file_index, old(self).files@.len() as usize),
            final(self).files@ == old(self).files@,
            final(self).pane == old(self).pane,
            final(self).sidebar_items@ == old(self).sidebar_items@,
            final(self).selected_sidebar_index == old(self).selected_sidebar_index,
            final(self).selected_files@ == old(self).selected_files@,
    {
        if self.files.len() > 0 {
            self.selected_file_index = (self.selected_file_index + 1) % self.files.len();
        }
    }

    /// Moves the file cursor up, wrapping to the bottom.
    pub fn previous_file(&mut self)
        requires
            old(self).wf(),
        ensures
            final(self).wf(),
            final(self).selected_file_index == prev_index(old(self).selected_file_index, old(self).files@.len() as usize),
            final(self).files@ == old(self).files@,
            final(self).pane == old(self).pane,
            final(self).sidebar_items@ == old(self).sidebar_items@,
            final(self).selected_sidebar_index == old(self).selected_sidebar_index,
            final(self).selected_files@ == old(self).selected_files@,
    {
        if self.files.len() > 0 {
            if self.selected_file_index > 0 {
                self.selected_file_index = self.selected_file_index - 1;
            } else {
                self.selected_file_index = self.files.len() - 1;
            }
        }
    }

    /// Up arrow: moves the cursor of the active pane up, wrapping.
    pub fn browser_up(&mut self)
        requires
            old(self).wf(),
        ensures
            final(self).wf(),
            old(self).pane == BrowserPane::Sidebar ==> final(self).selected_sidebar_index == prev_index(
                old(self).selected_sidebar_index,
                old(self).sidebar_items@.len() as usize,
            ) && final(self).selected_file_index == old(self).selected_file_index,
            old(self).pane == BrowserPane::FileList ==> final(self).selected_file_index == prev_index(
                old(self).selected_file_index,
                old(self).files@.len() as usize,
            ) && final(self).selected_sidebar_index == old(self).selected_sidebar_index,
            final(self).files@ == old(self).files@,
            final(self).pane == old(self).pane,
            final(self).sidebar_items@ == old(self).sidebar_items@,
            final(self).selected_files@ == old(self).selected_files@,
    {
        if self.pane == BrowserPane::Sidebar {
            if self.sidebar_items.len() > 0 {
                if self.selected_sidebar_index > 0 {
                    self.selected_sidebar_index = self.selected_sidebar_index - 1;
                } else {
                    self.selected_sidebar_index = self.sidebar_items.len() - 1;
                }
            }
        } else {
            self.previous_file();
        }
    }

    /// Down arrow: moves the cursor of the active pane down, wrapping.
    pub fn browser_down(&mut self)
        requires
            old(self).wf(),
        ensures
            final(self).wf(),
            old(self).pane == BrowserPane::Sidebar ==> final(self).selected_sidebar_index == next_index(
                old(self).selected_sidebar_index,
                old(self).sidebar_items@.len() as usize,
            ) && final(self).selected_file_index == old(self).selected_file_index,
            old(self).pane == BrowserPane::FileList ==> final(self).selected_file_index == next_index(
                old(self).selected_file_index,
                old(self).files@.len() as usize,
            ) && final(self).selected_sidebar_index == old(self).selected_sidebar_index,
            final(self).files@ == old(self).files@,
            final(self).pane == old(self).pane,
            final(self).sidebar_items@ == old(self).sidebar_items@,
            final(self).selected_files@ == old(self).selected_files@,
    {
        if self.pane == BrowserPane::Sidebar {
            if self.sidebar_items.len() > 0 {
                self.selected_sidebar_index = (self.selected_sidebar_index + 1) % self.sidebar_items.len();
            }
        } else {
            self.next_file();
        }
    }

    /// Makes `pane` the active pane.
    pub fn set_pane(&mut self, pane: BrowserPane)
        requires
            old(self).wf(),
        ensures
            final(self).wf(),
            final(self).pane == pane,
            final(self).files@ == old(self).files@,
            final(self).selected_file_index == old(self).selected_file_index,
            final(self).sidebar_items@ == old(self).sidebar_items@,
            final(self).selected_sidebar_index == old(self).selected_sidebar_index,
            final(self).selected_files@ == old(self).selected_files@,
    {
        self.pane = pane;
    }

    /// Tab: makes the other pane active.
    pub fn switch_pane(&mut self)
        requires
            old(self).wf(),
        ensures
            final(self).wf(),
            final(self).pane == if old(self).pane == BrowserPane::Sidebar {
                BrowserPane::FileList
            } else {
                BrowserPane::Sidebar
            },
            final(self).files@ == old(self).files@,
            final(self).selected_file_index == old(self).selected_file_index,
            final(self).sidebar_items@ == old(self).sidebar_items@,
            final(self).selected_sidebar_index == old(self).selected_sidebar_index,
            final(self).selected_files@ == old(self).selected_files@,
    {
        self.pane = if self.pane == BrowserPane::Sidebar {
            BrowserPane::FileList
        } else {
            BrowserPane::Sidebar
        };
    }

    /// The path under the file cursor; none for an empty listing or the
    /// parent entry, which cannot be sent.
    pub fn get_selected_path(&self) -> (r: Option<String>)
        requires
            self.wf(),
        ensures
            self.files@.len() == 0 ==> r is None,
            self.files@.len() > 0 ==> match r {
                Some(p) => p@ == self.files@[self.selected_file_index as int]@ && p@ != parent_entry(),
                None => self.files@[self.selected_file_index as int]@ == parent_entry(),
            },
    {
        if self.files.len() == 0 {
            return None;
        }
        let dots = chars_of("..");
        if str_eq_chars(self.files[self.selected_file_index].as_str(), &dots) {
            None
        } else {
            Some(self.files[self.selected_file_index].clone())
        }
    }

    /// Picks `path` for the batch, or drops it if it was picked.
    pub fn toggle_selected(&mut self, path: String)
        requires
            old(self).wf(),
        ensures
            final(self).wf(),
            text_set(final(self).selected_files@) == if text_set(old(self).selected_files@).contains(path@) {
                text_set(old(self).selected_files@).remove(path@)
            } else {
                text_set(old(self).selected_files@).insert(path@)
            },
            final(self).files@ == old(self).files@,
            final(self).selected_file_index == old(self).selected_file_index,
            final(self).pane == old(self).pane,
            final(self).sidebar_items@ == old(self).sidebar_items@,
            final(self).selected_sidebar_index == old(self).selected_sidebar_index,
    {
        let ghost old_sel = self.selected_files@;
        let ghost old_view = old_sel.map_values(|x: String| x@);
        let mut k: usize = 0;
        while k < self.selected_files.len()
            invariant
                k <= self.selected_files@.len(),
                self.selected_files@ == old_sel,
                old_sel == old(self).selected_files@,
                old_view == old_sel.map_values(|x: String| x@),
                self.files@ == old(self).files@,
                self.selected_file_index == old(self).selected_file_index,
                self.pane == old(self).pane,
                self.sidebar_items@ == old(self).sidebar_items@,
                self.selected_sidebar_index == old(self).selected_sidebar_index,
                old(self).wf(),
                forall|j: int| 0 <= j < k ==> (#[trigger] old_sel[j])@ != path@,
            decreases self.selected_files@.len() - k,
        {
            if self.selected_files[k] == path {
                let ghost kk = k as int;
                self.selected_files.remove(k);
                proof {
                    let nv = self.selected_files@.map_values(|x: String| x@);
                    assert(self.selected_files@ =~= old_sel.remove(kk));
                    assert(text_set(old_sel).contains(path@)) by {
                        assert(old_view[kk] == path@);
                    }
                    assert forall|x: Seq<char>| #[trigger] nv.to_set().contains(x) <==> old_view.to_set().remove(path@).contains(x) by {
                        if nv.to_set().contains(x) {
                            let j = choose|j: int| 0 <= j < nv.len() && nv[j] == x;
                            if j < kk {
                                assert(nv[j] == old_view[j]);
                                assert(old_sel[j]@ != old_sel[kk]@);
                            } else {
                                assert(nv[j] == old_view[j + 1]);
                                assert(old_sel[kk]@ != old_sel[j + 1]@);
                            }
                        }
                        if old_view.to_set().remove(path@).contains(x) {
                            let j = choose|j: int| 0 <= j < old_view.len() && old_view[j] == x;
                            assert(j != kk);
                            if j < kk {
                                assert(nv[j] == x);
                            } else {
                                assert(nv[j - 1] == x);
                            }
                        }
                    }
                    assert(nv.to_set() =~= old_view.to_set().remove(path@));
                    assert forall|a: int, b: int| 0 <= a < b < self.selected_files@.len() implies
                        (#[trigger] self.selected_files@[a])@ != (#[trigger] self.selected_files@[b])@ by {
                        if b < kk {
                        } else if a < kk {
                            assert(self.selected_files@[b] == old_sel[b + 1]);
                        } else {
                            assert(self.selected_files@[a] == old_sel[a + 1]);
                            assert(self.selected_files@[b] == old_sel[b + 1]);
                        }
                    }
                }
                return;
            }
            k = k + 1;
        }
        let ghost p = path@;
        self.selected_files.push(path);
        proof {
            let nv = self.selected_files@.map_values(|x: String| x@);
            assert(nv =~= old_view.push(p));
            assert(!text_set(old_sel).contains(p)) by {
                if old_view.to_set().contains(p) {
                    let j = choose|j: int| 0 <= j < old_view.len() && old_view[j] == p;
                    assert(old_sel[j]@ == p);
                }
            }
            assert(nv.to_set() =~= old_view.to_set().insert(p)) by {
                assert forall|x: Seq<char>| #[trigger] nv.to_set().contains(x) <==> old_view.to_set().insert(p).contains(x) by {
                    if nv.to_set().contains(x) {
                        let j = choose|j: int| 0 <= j < nv.len() && nv[j] == x;
                        if j < old_view.len() {
                            assert(old_view[j] == x);
                        }
                    }
                    if old_view.to_set().insert(p).contains(x) {
                        if x == p {
                            assert(nv[old_view.len() as int] == x);
                        } else {
                            let j = choose|j: int| 0 <= j < old_view.len() && old_view[j] == x;
                            assert(nv[j] == x);
                        }
                    }
                }
            }
        }
    }

    /// Space: picks or drops the path under the cursor and moves down. The
    /// parent entry cannot be picked; nothing happens on it.
    pub fn select_current(&mut self)
        requires
            old(self).wf(),
        ensures
            final(self).wf(),
            final(self).files@ == old(self).files@,
            old(self).files@.len() > 0 && old(self).files@[old(self).selected_file_index as int]@ != parent_entry() ==> {
                let p = old(self).files@[old(self).selected_file_index as int]@;
                &&& text_set(final(self).selected_files@) == if text_set(old(self).selected_files@).contains(p) {
                    text_set(old(self).selected_files@).remove(p)
                } else {
                    text_set(old(self).selected_files@).insert(p)
                }
                &&& final(self).selected_file_index == next_index(old(self).selected_file_index, old(self).files@.len() as usize)
            },
            !(old(self).files@.len() > 0 && old(self).files@[old(self).selected_file_index as int]@ != parent_entry()) ==> {
                &&& final(self).selected_files@ == old(self).selected_files@
                &&& final(self).selected_file_index == old(self).selected_file_index
            },
    {
        match self.get_selected_path() {
            Some(p) => {
                self.toggle_selected(p);
                self.next_file();
            },
            None => {},
        }
    }

    /// What Enter asks for: on the sidebar, a jump to the place under the
    /// cursor (and the file list becomes active); on the file list, the
    /// parent for the `..` entry, or the path under the cursor to open.
    pub fn browser_enter(&mut self) -> (plan: EnterPlan)
        requires
            old(self).wf(),
        ensures
            final(self).wf(),
            final(self).files@ == old(self).files@,
            final(self).selected_file_index == old(self).selected_file_index,
            final(self).selected_files@ == old(self).selected_files@,
            old(self).pane == BrowserPane::Sidebar ==> if old(self).sidebar_items@.len() > 0 {
                &&& plan matches EnterPlan::Jump(p) && p@ == old(self).sidebar_items@[old(self).selected_sidebar_index as int].path@
                &&& final(self).pane == BrowserPane::FileList
            } else {
                plan is Nothing && final(self).pane == old(self).pane
            },
            old(self).pane == BrowserPane::FileList ==> final(self).pane == old(self).pane && if old(self).files@.len() == 0 {
                plan is Nothing
            } else if old(self).files@[old(self).selected_file_index as int]@ == parent_entry() {
                plan is Parent
            } else {
                plan matches EnterPlan::Open(p) && p@ == old(self).files@[old(self).selected_file_index as int]@
            },
    {
        if self.pane == BrowserPane::Sidebar {
            if self.sidebar_items.len() > 0 {
                let p = self.sidebar_items[self.selected_sidebar_index].path.clone();
                self.pane = BrowserPane::FileList;
                EnterPlan::Jump(p)
            } else {
                EnterPlan::Nothing
            }
        } else {
            self.enter_selected()
        }
    }

    /// What Enter on the file list asks for: nothing on an empty listing, the
    /// parent for the `..` entry, otherwise the path under the cursor, to be
    /// opened if it is a directory.
    pub fn enter_selected(&self) -> (plan: EnterPlan)
        requires
            self.wf(),
        ensures
            if self.files@.len() == 0 {
                plan is Nothing
            } else if self.files@[self.selected_file_index as int]@ == parent_entry() {
                plan is Parent
            } else {
                plan matches EnterPlan::Open(p) && p@ == self.files@[self.selected_file_index as int]@
            },
    {
        if self.files.len() == 0 {
            return EnterPlan::Nothing;
        }
        match self.get_selected_path() {
            Some(p) => EnterPlan::Open(p),
            None => EnterPlan::Parent,
        }
    }

    /// The paths a send takes: the picked ones, or else the one under the
    /// cursor (none on an empty listing or the parent entry).
    pub fn send_paths(&self) -> (v: Vec<String>)
        requires
            self.wf(),
        ensures
            self.selected_files@.len() > 0 ==> v@.map_values(|x: String| x@) == self.selected_files@.map_values(|x: String| x@),
            self.selected_files@.len() == 0 ==> if self.files@.len() > 0 && self.files@[self.selected_file_index as int]@ != parent_entry() {
                v@.len() == 1 && v@[0]@ == self.files@[self.selected_file_index as int]@
            } else {
                v@.len() == 0
            },
    {
        let mut v: Vec<String> = Vec::new();
        if self.selected_files.len() > 0 {
            let mut k: usize = 0;
            while k < self.selected_files.len()
                invariant
                    k <= self.selected_files@.len(),
                    v@.map_values(|x: String| x@) == self.selected_files@.take(k as int).map_values(|x: String| x@),
                decreases self.selected_files@.len() - k,
            {
                let ghost before = v@.map_values(|x: String| x@);
                v.push(self.selected_files[k].clone());
                proof {
                    assert(v@.map_values(|x: String| x@) =~= before.push(self.selected_files@[k as int]@));
                    assert(self.selected_files@.take(k + 1).map_values(|x: String| x@) =~= self.selected_files@.take(
                        k as int,
                    ).map_values(|x: String| x@).push(self.selected_files@[k as int]@));
                }
                k = k + 1;
            }
            proof {
                assert(self.selected_files@.take(self.selected_files@.len() as int) =~= self.selected_files@);
            }
        } else {
            match self.get_selected_path() {
                Some(p) => v.push(p),
                None => {},
            }
        }
        v
    }
}

/// Picking a path twice leaves the picked set as it was.
pub proof fn lemma_toggle_twice(s: Set<Seq<char>>, p: Seq<char>)
    ensures
        ({
            let once = if s.contains(p) { s.remove(p) } else { s.insert(p) };
            let twice = if once.contains(p) { once.remove(p) } else { once.insert(p) };
            twice == s
        }),
{
    let once = if s.contains(p) { s.remove(p) } else { s.insert(p) };
    let twice = if once.contains(p) { once.remove(p) } else { once.insert(p) };
    assert(twice =~= s);
}


/// What `str::to_uppercase` makes of a text (the Unicode uppercase mapping,
/// which may lengthen it).
pub uninterp spec fn uppercase_of(s: Seq<char>) -> Seq<char>;

/// `str::to_uppercase`. Its result is named by `uppercase_of`; the mapping
/// itself is left unsaid.
#[verifier::external_body]
fn to_uppercase(s: &str) -> (r: String)
    ensures
        r@ == uppercase_of(s@),
{
    s.to_uppercase()
}

/// Whether a drive is the one the current directory lies on: its name, in
/// uppercase, begins with the current root in uppercase.
pub open spec fn drive_matches(drive: Seq<char>, root: Seq<char>) -> bool {
    uppercase_of(root).is_prefix_of(uppercase_of(drive))
}

/// The drive to move to from the root `root`: the one after the first drive
/// that matches it (wrapping), or the first drive when none does.
pub fn next_drive(drives: &Vec<String>, root: &str) -> (i: usize)
    requires
        drives@.len() > 0,
    ensures
        i < drives@.len(),
        (forall|k: int| 0 <= k < drives@.len() ==> !drive_matches(#[trigger] drives@[k]@, root@)) ==> i == 0,
        (exists|k: int| 0 <= k < drives@.len() && drive_matches(#[trigger] drives@[k]@, root@)) ==> exists|k: int|
            #![trigger drives@[k]]
            0 <= k < drives@.len() && drive_matches(drives@[k]@, root@) && (forall|j: int|
                0 <= j < k ==> !drive_matches(#[trigger] drives@[j]@, root@)) && i == (k + 1) % (drives@.len() as int),
{
    let r = to_uppercase(root);
    let rc = chars_of(r.as_str());
    let mut k: usize = 0;
    while k < drives.len()
        invariant
            k <= drives@.len(),
            rc@ == uppercase_of(root@),
            forall|j: int| 0 <= j < k ==> !drive_matches(#[trigger] drives@[j]@, root@),
        decreases drives@.len() - k,
    {
        let d = to_uppercase(drives[k].as_str());
        let dc = chars_of(d.as_str());
        if starts_with_chars(&dc, &rc) {
            assert(drive_matches(drives@[k as int]@, root@));
            return (k + 1) % drives.len();
        }
        k = k + 1;
    }
    0
}

/// The status a transfer task shows before attempt `retry_count`: waiting
/// (sending) or connecting (receiving) the first time, reconnecting after.
pub open spec fn attempt_status_text(sending: bool, retry_count: u64) -> Seq<char> {
    if retry_count == 0 {
        if sending {
            "Waiting for peer to connect..."@
        } else {
            "Connecting to peer..."@
        }
    } else {
        "\u{26a0} Connection lost. Reconnecting... (Attempt "@ + decimal(retry_count as nat) + ")"@
    }
}

/// The status a transfer task shows before attempt `retry_count`.
pub fn attempt_status(sending: bool, retry_count: u64) -> (s: String)
    ensures
        s@ == attempt_status_text(sending, retry_count),
{
    if retry_count == 0 {
        if sending {
            "Waiting for peer to connect...".to_string()
        } else {
            "Connecting to peer...".to_string()
        }
    } else {
        let mut v = chars_of("\u{26a0} Connection lost. Reconnecting... (Attempt ");
        let d = decimal_chars(retry_count);
        let ghost v0 = v@;
        let mut i: usize = 0;
        while i < d.len()
            invariant
                i <= d@.len(),
                v@ == v0 + d@.take(i as int),
            decreases d@.len() - i,
        {
            v.push(d[i]);
            proof {
                assert(d@.take(i + 1) =~= d@.take(i as int).push(d@[i as int]));
                assert(v@ =~= v0 + d@.take(i + 1));
            }
            i = i + 1;
        }
        proof {
            assert(d@.take(d@.len() as int) =~= d@);
            reveal_strlit(")");
        }
        v.push(')');
        proof {
            assert(v@ =~= v0 + d@ + ")"@);
        }
        string_from_chars(v.as_slice())
    }
}
} // verus!
