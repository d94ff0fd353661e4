//! Application state, focus, and key bindings.
//!
//! `App` is the picker's state.  Its methods decide; whatever needs the outside
//! world (saving a configuration, launching a screensaver, deleting a file,
//! rediscovering the installed screensavers, fetching an embedded document,
//! starting a download) is left in `request` for the front end, which performs
//! it and hands the outcome back through `resume`.  The step that waits for that
//! outcome is kept in `awaiting`.
use vstd::prelude::*;
use crate::markdown::{markdown_lines, parse_markdown_to_lines};
use crate::model::{
    file_name, file_name_of, is_stock, is_stock_screensaver, savers_view, strs_view, GlobalConfig,
    GlobalV, LocalConfig, LocalV, Screensaver, ScreensaverV,
};
use crate::registry::{PackageTools, Platform, RegistryEntry, RegistryEntryV};
use crate::styled::{lines_view, LineV, StyledLine};
use crate::text::{push_str, string_from};
use crate::theme::TuiTheme;

verus! {

/// Focused section in the TUI dashboard.
#[derive(Debug, Clone, Copy, PartialEq, Eq, Structural)]
pub enum FocusedSection {
    /// Global preferences config pane.
    GlobalPrefs,
    /// Screensaver list selection.
    SaverList,
}

/// Dynamic global config fields in the TUI dashboard.
#[derive(Debug, Clone, Copy, PartialEq, Eq, Structural)]
pub enum GlobalField {
    /// Active screensaver enabled/disabled state.
    Active,
    /// Timeout length of the screensaver.
    Timeout,
    /// Prevent system sleep state.
    PreventSleep,
    /// Cycling interval duration.
    CycleTime,
    /// Hide stock Windows screensavers.
    HideStock,
}

/// Status message type.
#[derive(Debug, Clone, Copy, PartialEq, Eq, Structural)]
pub enum StatusKind {
    /// Normal information status.
    Info,
    /// Error status.
    Error,
}

/// What to do once a screensaver's download has finished.
#[derive(Debug, Clone, Copy, PartialEq, Eq, Structural)]
pub enum PendingAction {
    /// Apply active screensaver.
    Apply,
    /// Toggle cycling list selection.
    ToggleSelection,
    /// Run screensaver fullscreen preview.
    Preview,
    /// Open screensaver configuration.
    Configure,
    /// Toggle screensaver selection and apply immediately.
    ToggleAndApply,
}

/// Status message displayed on the TUI status bar.
#[derive(Debug, PartialEq, Eq)]
pub struct StatusMessage {
    /// Status message text.
    pub text: String,
    /// Semantic type of the status.
    pub kind: StatusKind,
}

/// A key of the keyboard, as far as the picker tells keys apart.
#[derive(Debug, Clone, Copy, PartialEq, Eq, Structural)]
pub enum KeyCode {
    Char(char),
    F(u8),
    Up,
    Down,
    Left,
    Right,
    Enter,
    Esc,
    Tab,
    BackTab,
    PageUp,
    PageDown,
    Other,
}

/// The modifier keys held with a key.
#[derive(Debug, Clone, Copy, PartialEq, Eq, Structural)]
pub struct KeyModifiers {
    pub control: bool,
}

impl KeyModifiers {
    /// No modifier held.
    pub fn empty() -> (m: KeyModifiers)
        ensures
            !m.control,
    {
        KeyModifiers { control: false }
    }

    /// Whether Control is held.
    pub fn contains_control(&self) -> (b: bool)
        ensures
            b == self.control,
    {
        self.control
    }
}

/// What the host environment tells the picker at start: its own executable,
/// where downloads go, the platform, the installed package managers, the power
/// source, and who and where the user is.
#[derive(Debug)]
pub struct HostInfo {
    /// Path of the picker's own executable (the screensaver that runs the random cycle).
    pub self_path: String,
    /// Directory that downloaded screensavers are stored in, when known.
    pub saver_dir: Option<String>,
    /// The operating system.
    pub platform: Platform,
    /// The package managers found.
    pub tools: PackageTools,
    /// Whether the computer runs on battery power.
    pub on_battery: bool,
    pub username: String,
    pub hostname: String,
    pub os_version: String,
}

/// The abstract value of the host information.
pub struct HostV {
    pub self_path: Seq<char>,
    pub saver_dir: Option<Seq<char>>,
    pub platform: Platform,
    pub tools: PackageTools,
    pub on_battery: bool,
    pub username: Seq<char>,
    pub hostname: Seq<char>,
    pub os_version: Seq<char>,
}

impl View for HostInfo {
    type V = HostV;

    open spec fn view(&self) -> HostV {
        HostV {
            self_path: self.self_path@,
            saver_dir: match self.saver_dir {
                Some(d) => Some(d@),
                None => None,
            },
            platform: self.platform,
            tools: self.tools,
            on_battery: self.on_battery,
            username: self.username@,
            hostname: self.hostname@,
            os_version: self.os_version@,
        }
    }
}

/// Work for the front end.
#[derive(Debug)]
pub enum Request {
    /// Store `App::global` in the system settings.
    SaveGlobal,
    /// Store `App::local` in the user's configuration.
    SaveLocal,
    /// Run the screensaver at `path` with the argument `arg` (`/s` to show, `/c` to configure).
    Launch { path: String, arg: String },
    /// Delete the file at `path`.
    RemoveFile { path: String },
    /// List the installed screensavers again.
    Discover,
    /// Download the screensaver `name` from `url` in the background.
    StartDownload { name: String, url: String },
    /// Fetch the embedded document `name`.
    LoadDocument { name: String },
}

/// The outcome of a request.
#[derive(Debug)]
pub enum Reply {
    /// It succeeded.
    Done,
    /// It failed, with this message.
    Failed(String),
    /// The installed screensavers.
    Screensavers(Vec<Screensaver>),
    /// The text of a document.
    Document(String),
}

/// The step that waits for the outcome of the current request.
#[derive(Debug)]
pub enum Step {
    /// The global settings were saved after toggling `active`.
    ActiveSaved,
    /// The user settings were saved after toggling sleep prevention.
    PreventSleepSaved,
    /// The user settings were saved after toggling the stock filter.
    HideStockSaved,
    /// The global settings were saved after changing the timeout.
    TimeoutSaved,
    /// The user settings were saved after changing the cycle time.
    CycleTimeSaved,
    /// The global settings were saved after applying the selection.
    ApplySaved,
    /// The user settings were saved after toggling the selection; apply next when `then_apply`.
    SelectionSaved { then_apply: bool },
    /// A save whose outcome does not matter.
    Ignored,
    /// The preview was launched.
    Previewed,
    /// The configuration dialog of `name` was launched.
    Configured { name: String },
    /// The file of `name` at `path` was deleted.
    Deleted { path: String, name: String },
    /// The user settings were saved after a delete; rediscover next.
    DeleteSaved,
    /// The screensavers were rediscovered.
    Refreshed,
    /// The screensavers were rediscovered after `name` was downloaded.
    Downloaded { name: String },
    /// The document `name` was fetched.
    Document { name: String },
}

/// The abstract value of a request.
pub enum RequestV {
    SaveGlobal,
    SaveLocal,
    Launch { path: Seq<char>, arg: Seq<char> },
    RemoveFile { path: Seq<char> },
    Discover,
    StartDownload { name: Seq<char>, url: Seq<char> },
    LoadDocument { name: Seq<char> },
}

impl View for Request {
    type V = RequestV;

    open spec fn view(&self) -> RequestV {
        match self {
            Request::SaveGlobal => RequestV::SaveGlobal,
            Request::SaveLocal => RequestV::SaveLocal,
            Request::Launch { path, arg } => RequestV::Launch { path: path@, arg: arg@ },
            Request::RemoveFile { path } => RequestV::RemoveFile { path: path@ },
            Request::Discover => RequestV::Discover,
            Request::StartDownload { name, url } => RequestV::StartDownload { name: name@, url: url@ },
            Request::LoadDocument { name } => RequestV::LoadDocument { name: name@ },
        }
    }
}

/// The abstract value of a waiting step.
pub enum StepV {
    ActiveSaved,
    PreventSleepSaved,
    HideStockSaved,
    TimeoutSaved,
    CycleTimeSaved,
    ApplySaved,
    SelectionSaved { then_apply: bool },
    Ignored,
    Previewed,
    Configured { name: Seq<char> },
    Deleted { path: Seq<char>, name: Seq<char> },
    DeleteSaved,
    Refreshed,
    Downloaded { name: Seq<char> },
    Document { name: Seq<char> },
}

impl View for Step {
    type V = StepV;

    open spec fn view(&self) -> StepV {
        match self {
            Step::ActiveSaved => StepV::ActiveSaved,
            Step::PreventSleepSaved => StepV::PreventSleepSaved,
            Step::HideStockSaved => StepV::HideStockSaved,
            Step::TimeoutSaved => StepV::TimeoutSaved,
            Step::CycleTimeSaved => StepV::CycleTimeSaved,
            Step::ApplySaved => StepV::ApplySaved,
            Step::SelectionSaved { then_apply } => StepV::SelectionSaved { then_apply: *then_apply },
            Step::Ignored => StepV::Ignored,
            Step::Previewed => StepV::Previewed,
            Step::Configured { name } => StepV::Configured { name: name@ },
            Step::Deleted { path, name } => StepV::Deleted { path: path@, name: name@ },
            Step::DeleteSaved => StepV::DeleteSaved,
            Step::Refreshed => StepV::Refreshed,
            Step::Downloaded { name } => StepV::Downloaded { name: name@ },
            Step::Document { name } => StepV::Document { name: name@ },
        }
    }
}

/// The abstract value of a reply.
pub enum ReplyV {
    Done,
    Failed(Seq<char>),
    Screensavers(Seq<ScreensaverV>),
    Document(Seq<char>),
}

impl View for Reply {
    type V = ReplyV;

    open spec fn view(&self) -> ReplyV {
        match self {
            Reply::Done => ReplyV::Done,
            Reply::Failed(e) => ReplyV::Failed(e@),
            Reply::Screensavers(v) => ReplyV::Screensavers(savers_view(v@)),
            Reply::Document(d) => ReplyV::Document(d@),
        }
    }
}

/// The abstract value of a status message: its text and kind.
pub type StatusV = (Seq<char>, StatusKind);

impl View for StatusMessage {
    type V = StatusV;

    open spec fn view(&self) -> StatusV {
        (self.text@, self.kind)
    }
}

/// Main application state struct.
#[derive(Debug)]
pub struct App {
    /// Discovered/registered screensavers.
    pub screensavers: Vec<Screensaver>,
    /// Highlighted list index.
    pub highlighted: usize,
    /// Current focused panel.
    pub focused: FocusedSection,
    /// Current focused preference field.
    pub global_field: GlobalField,
    /// Global screensaver registry config.
    pub global: GlobalConfig,
    /// Local user config.
    pub local: LocalConfig,
    /// TUI theme colors.
    pub theme: TuiTheme,
    /// Status message state.
    pub status: Option<StatusMessage>,
    /// Quit flag signaling render loop exit.
    pub should_quit: bool,
    /// Curated registry catalog items.
    pub registry_entries: Vec<RegistryEntry>,
    /// Action to execute once download succeeds.
    pub pending_action: Option<PendingAction>,
    /// Help overlay visibility.
    pub show_help: bool,
    /// Opened markdown document name.
    pub show_markdown: Option<String>,
    /// Rendered lines of the markdown document.
    pub markdown_lines: Vec<StyledLine>,
    /// Scroll offset of the markdown document.
    pub markdown_scroll: usize,
    /// Whether the computer is currently running on battery power (throttling).
    pub on_battery: bool,
    /// What the host environment told the picker at start.
    pub host: HostInfo,
    /// Work for the front end, if any.
    pub request: Option<Request>,
    /// The step waiting for the outcome of `request`.
    pub awaiting: Option<Step>,
}

/// The abstract value of the application state.
pub struct AppV {
    pub screensavers: Seq<ScreensaverV>,
    pub highlighted: usize,
    pub focused: FocusedSection,
    pub global_field: GlobalField,
    pub global: GlobalV,
    pub local: LocalV,
    pub theme: TuiTheme,
    pub status: Option<StatusV>,
    pub should_quit: bool,
    pub registry_entries: Seq<RegistryEntryV>,
    pub pending_action: Option<PendingAction>,
    pub show_help: bool,
    pub show_markdown: Option<Seq<char>>,
    pub markdown_lines: Seq<LineV>,
    pub markdown_scroll: usize,
    pub on_battery: bool,
    pub host: HostV,
    pub request: Option<RequestV>,
    pub awaiting: Option<StepV>,
}

/// The views of a list of registry entries.
pub open spec fn entries_view(v: Seq<RegistryEntry>) -> Seq<RegistryEntryV> {
    v.map_values(|e: RegistryEntry| e@)
}

impl View for App {
    type V = AppV;

    open spec fn view(&self) -> AppV {
        AppV {
            screensavers: savers_view(self.screensavers@),
            highlighted: self.highlighted,
            focused: self.focused,
            global_field: self.global_field,
            global: self.global@,
            local: self.local@,
            theme: self.theme,
            status: match self.status {
                Some(s) => Some(s@),
                None => None,
            },
            should_quit: self.should_quit,
            registry_entries: entries_view(self.registry_entries@),
            pending_action: self.pending_action,
            show_help: self.show_help,
            show_markdown: match self.show_markdown {
                Some(s) => Some(s@),
                None => None,
            },
            markdown_lines: lines_view(self.markdown_lines@),
            markdown_scroll: self.markdown_scroll,
            on_battery: self.on_battery,
            host: self.host@,
            request: match self.request {
                Some(r) => Some(r@),
                None => None,
            },
            awaiting: match self.awaiting {
                Some(s) => Some(s@),
                None => None,
            },
        }
    }
}

// ---------------------------------------------------------------------------
// Specifications
// ---------------------------------------------------------------------------

/// The first index of `s` whose element satisfies `p`, or -1 when none does.
pub open spec fn first_where<A>(s: Seq<A>, p: spec_fn(A) -> bool) -> int {
    if exists|k: int| 0 <= k < s.len() && p(s[k]) {
        choose|k: int| 0 <= k < s.len() && p(s[k]) && forall|j: int| 0 <= j < k ==> !p(s[j])
    } else {
        -1
    }
}

/// The first index of `x` in `s`, or -1.
pub open spec fn first_at<A>(s: Seq<A>, x: A) -> int {
    first_where(s, |a: A| a == x)
}

/// `k` is the first index whose element satisfies `p` (-1: there is none)
/// exactly when `first_where` says so.
pub proof fn lemma_first_where<A>(s: Seq<A>, p: spec_fn(A) -> bool, k: int)
    requires
        -1 <= k < s.len(),
        k >= 0 ==> p(s[k]),
        forall|j: int| 0 <= j < (if k >= 0 { k } else { s.len() as int }) ==> !p(#[trigger] s[j]),
    ensures
        first_where(s, p) == k,
{
    if k >= 0 {
        assert(0 <= k < s.len() && p(s[k]) && forall|j: int| 0 <= j < k ==> !p(s[j]));
        let c = choose|c: int| 0 <= c < s.len() && p(s[c]) && forall|j: int| 0 <= j < c ==> !p(s[j]);
        if c < k {
            assert(!p(s[c]));
        }
        if c > k {
            assert(!p(s[k]));
        }
    }
}

/// The indices of the screensavers the list shows: all of them, or only the
/// non-stock ones when stock screensavers are hidden; among the first `n`.
pub open spec fn visible_upto(ss: Seq<ScreensaverV>, hide: bool, n: nat) -> Seq<usize>
    decreases n,
{
    if n == 0 {
        Seq::empty()
    } else {
        let r = visible_upto(ss, hide, (n - 1) as nat);
        if !hide || !is_stock(ss[n - 1].path) {
            r.push((n - 1) as usize)
        } else {
            r
        }
    }
}

/// The indices of the screensavers the list shows, in order.
pub open spec fn filtered(v: AppV) -> Seq<usize> {
    visible_upto(v.screensavers, v.local.hide_stock, v.screensavers.len())
}

/// The position of the highlighted screensaver in the shown list (0 when it is not shown).
pub open spec fn highlight_pos(v: AppV) -> int {
    let p = first_at(filtered(v), v.highlighted);
    if p >= 0 {
        p
    } else {
        0
    }
}

/// The highlight moved back into the shown list: kept when shown, else the
/// first shown screensaver (0 when none is shown).
pub open spec fn spec_resolve(v: AppV) -> AppV {
    let idx = filtered(v);
    if idx.len() == 0 {
        AppV { highlighted: 0, ..v }
    } else if first_at(idx, v.highlighted) >= 0 {
        v
    } else {
        AppV { highlighted: idx[0], ..v }
    }
}

/// `x` kept within `0..=hi`.
pub open spec fn clamp_pos(x: int, hi: int) -> int {
    if x < 0 {
        0
    } else if x > hi {
        hi
    } else {
        x
    }
}

/// The highlight moved `delta` places through the shown list, stopping at
/// the first and the last shown screensaver.
pub open spec fn spec_move_highlight(v: AppV, delta: i32) -> AppV {
    let idx = filtered(v);
    if idx.len() == 0 {
        v
    } else {
        AppV { highlighted: idx[clamp_pos(highlight_pos(v) + delta, idx.len() - 1)], ..v }
    }
}

/// The place of a preference field in the preference pane.
pub open spec fn field_index(f: GlobalField) -> int {
    match f {
        GlobalField::Active => 0,
        GlobalField::Timeout => 1,
        GlobalField::PreventSleep => 2,
        GlobalField::CycleTime => 3,
        GlobalField::HideStock => 4,
    }
}

/// The preference field at a place of the pane.
pub open spec fn field_at(i: int) -> GlobalField {
    if i == 0 {
        GlobalField::Active
    } else if i == 1 {
        GlobalField::Timeout
    } else if i == 2 {
        GlobalField::PreventSleep
    } else if i == 3 {
        GlobalField::CycleTime
    } else {
        GlobalField::HideStock
    }
}

/// Focus moved `delta` steps: through the preference fields (wrapping), or
/// through the screensaver list.
pub open spec fn spec_move_focus(v: AppV, delta: i32) -> AppV {
    match v.focused {
        FocusedSection::GlobalPrefs => AppV {
            global_field: field_at((field_index(v.global_field) + delta) % 5),
            ..v
        },
        FocusedSection::SaverList => spec_move_highlight(v, delta),
    }
}

/// Whether moving by `delta` stays within the picker's 32-bit arithmetic.
pub open spec fn move_ok(v: AppV, delta: i32) -> bool {
    match v.focused {
        FocusedSection::GlobalPrefs => field_index(v.global_field) + delta <= i32::MAX,
        FocusedSection::SaverList => filtered(v).len() <= i32::MAX,
    }
}

/// An information status.
pub open spec fn info(text: Seq<char>) -> Option<StatusV> {
    Some((text, StatusKind::Info))
}

/// An error status.
pub open spec fn error(text: Seq<char>) -> Option<StatusV> {
    Some((text, StatusKind::Error))
}

/// The focus switched to the other section, with a status naming it.
pub open spec fn spec_cycle_focus(v: AppV) -> AppV {
    let f = match v.focused {
        FocusedSection::GlobalPrefs => FocusedSection::SaverList,
        FocusedSection::SaverList => FocusedSection::GlobalPrefs,
    };
    AppV {
        focused: f,
        status: info(
            "Focused Section: "@ + match f {
                FocusedSection::GlobalPrefs => "Global Preferences"@,
                FocusedSection::SaverList => "Screensaver List"@,
            },
        ),
        ..v
    }
}

/// The highlighted screensaver, when the highlight is on one.
pub open spec fn spec_current(v: AppV) -> Option<ScreensaverV> {
    if v.highlighted < v.screensavers.len() {
        Some(v.screensavers[v.highlighted as int])
    } else {
        None
    }
}

// ---------------------------------------------------------------------------
// Navigation
// ---------------------------------------------------------------------------

fn status_msg(text: String, kind: StatusKind) -> (m: StatusMessage)
    ensures
        m@ == (text@, kind),
{
    StatusMessage { text, kind }
}

fn text_of(parts: &[&str]) -> (s: String)
    requires
        parts@.len() <= 3,
    ensures
        parts@.len() == 0 ==> s@ == Seq::<char>::empty(),
        parts@.len() == 1 ==> s@ == parts@[0]@,
        parts@.len() == 2 ==> s@ == parts@[0]@ + parts@[1]@,
        parts@.len() == 3 ==> s@ == parts@[0]@ + parts@[1]@ + parts@[2]@,
{
    let mut s = String::new();
    let mut i: usize = 0;
    while i < parts.len()
        invariant
            i <= parts@.len() <= 3,
            i == 0 ==> s@ == Seq::<char>::empty(),
            i == 1 ==> s@ == parts@[0]@,
            i == 2 ==> s@ == parts@[0]@ + parts@[1]@,
            i == 3 ==> s@ == parts@[0]@ + parts@[1]@ + parts@[2]@,
        decreases parts@.len() - i,
    {
        push_str(&mut s, parts[i]);
        i = i + 1;
    }
    s
}

impl App {
    proof fn lemma_visible_facts(ss: Seq<ScreensaverV>, hide: bool, n: nat)
        requires
            n <= ss.len(),
            n <= usize::MAX,
        ensures
            visible_upto(ss, hide, n).len() <= n,
            forall|k: int| 0 <= k < visible_upto(ss, hide, n).len() ==> #[trigger] visible_upto(ss, hide, n)[k] < n,
            forall|j: int, k: int|
                0 <= j < k < visible_upto(ss, hide, n).len() ==> #[trigger] visible_upto(ss, hide, n)[j]
                    < #[trigger] visible_upto(ss, hide, n)[k],
        decreases n,
    {
        if n > 0 {
            Self::lemma_visible_facts(ss, hide, (n - 1) as nat);
            let r = visible_upto(ss, hide, (n - 1) as nat);
            let t = visible_upto(ss, hide, n);
            assert forall|j: int, k: int| 0 <= j < k < t.len() implies #[trigger] t[j] < #[trigger] t[k] by {
                if !hide || !is_stock(ss[n - 1].path) {
                    assert(t == r.push((n - 1) as usize));
                    if k < r.len() {
                        assert(t[j] == r[j] && t[k] == r[k]);
                    } else {
                        assert(t[k] == n - 1);
                        assert(t[j] == r[j]);
                        assert(r[j] < n - 1);
                    }
                } else {
                    assert(t == r);
                    assert(t[j] == r[j] && t[k] == r[k]);
                }
            }
        }
    }

    /// Indices into `self.screensavers` that match the current filter.
    pub fn filtered_indices(&self) -> (r: Vec<usize>)
        ensures
            r@ == filtered(self@),
    {
        let n = self.screensavers.len();
        let hide = self.local.hide_stock;
        let ghost ss = savers_view(self.screensavers@);
        let mut r: Vec<usize> = Vec::new();
        let mut i: usize = 0;
        while i < n
            invariant
                n == self.screensavers@.len(),
                ss == savers_view(self.screensavers@),
                hide == self.local.hide_stock,
                i <= n,
                r@ == visible_upto(ss, hide, i as nat),
            decreases n - i,
        {
            if !hide || !is_stock_screensaver(self.screensavers[i].path.as_str()) {
                r.push(i);
            }
            i = i + 1;
        }
        r
    }

    fn position_of(v: &Vec<usize>, x: usize) -> (r: Option<usize>)
        ensures
            match r {
                Some(k) => k < v@.len() && v@[k as int] == x && first_at(v@, x) == k,
                None => first_at(v@, x) == -1,
            },
    {
        let mut k: usize = 0;
        while k < v.len()
            invariant
                k <= v@.len(),
                forall|j: int| 0 <= j < k ==> v@[j] != x,
            decreases v@.len() - k,
        {
            if v[k] == x {
                proof {
                    lemma_first_where(v@, |a: usize| a == x, k as int);
                }
                return Some(k);
            }
            k = k + 1;
        }
        proof {
            lemma_first_where(v@, |a: usize| a == x, -1);
        }
        None
    }

    /// Map a position in the filtered list to the real index, clamping.
    pub fn resolve_highlight(&mut self)
        ensures
            final(self)@ == spec_resolve(old(self)@),
    {
        let indices = self.filtered_indices();
        if indices.len() == 0 {
            self.highlighted = 0;
            return;
        }
        match Self::position_of(&indices, self.highlighted) {
            Some(pos) => {
                self.highlighted = indices[pos];
            },
            None => {
                self.highlighted = indices[0];
            },
        }
    }

    /// The screensaver under the highlight.
    pub fn current_screensaver(&self) -> (r: Option<&Screensaver>)
        ensures
            match r {
                Some(s) => spec_current(self@) == Some(s@),
                None => spec_current(self@) is None,
            },
    {
        if self.highlighted < self.screensavers.len() {
            Some(&self.screensavers[self.highlighted])
        } else {
            None
        }
    }

    /// Adjust the highlight in the saver list, clamping to bounds.
    pub fn move_highlight(&mut self, delta: i32)
        requires
            filtered(old(self)@).len() <= i32::MAX,
        ensures
            final(self)@ == spec_move_highlight(old(self)@, delta),
    {
        let indices = self.filtered_indices();
        if indices.len() == 0 {
            return;
        }
        let current_pos: usize = match Self::position_of(&indices, self.highlighted) {
            Some(p) => p,
            None => 0,
        };
        let len = indices.len() as i64;
        let x = current_pos as i64 + delta as i64;
        let next: i64 = if x < 0 {
            0
        } else if x > len - 1 {
            len - 1
        } else {
            x
        };
        assert(next == clamp_pos(highlight_pos(old(self)@) + delta, indices@.len() - 1));
        self.highlighted = indices[next as usize];
    }

    /// Cycle the focused section.
    pub fn cycle_focus(&mut self)
        ensures
            final(self)@ == spec_cycle_focus(old(self)@),
    {
        self.focused = match self.focused {
            FocusedSection::GlobalPrefs => FocusedSection::SaverList,
            FocusedSection::SaverList => FocusedSection::GlobalPrefs,
        };
        let name = match self.focused {
            FocusedSection::GlobalPrefs => "Global Preferences",
            FocusedSection::SaverList => "Screensaver List",
        };
        let text = text_of(&["Focused Section: ", name]);
        self.status = Some(status_msg(text, StatusKind::Info));
    }

    /// Move focus / highlight depending on direction.
    pub fn move_focus(&mut self, delta: i32)
        requires
            move_ok(old(self)@, delta),
        ensures
            final(self)@ == spec_move_focus(old(self)@, delta),
    {
        match self.focused {
            FocusedSection::GlobalPrefs => {
                let idx: i64 = match self.global_field {
                    GlobalField::Active => 0,
                    GlobalField::Timeout => 1,
                    GlobalField::PreventSleep => 2,
                    GlobalField::CycleTime => 3,
                    GlobalField::HideStock => 4,
                };
                let x = idx + delta as i64;
                let next: i64 = if x >= 0 {
                    x % 5
                } else {
                    let y = -x - 1;
                    proof {
                        let q = y / 5;
                        let s = y % 5;
                        assert(y == q * 5 + s && 0 <= s < 5) by (nonlinear_arith)
                            requires y >= 0, q == y / 5, s == y % 5;
                        assert(x % 5 == 4 - s) by (nonlinear_arith)
                            requires y == q * 5 + s, y == -x - 1, 0 <= s < 5;
                    }
                    4 - (y % 5)
                };
                self.global_field = if next == 0 {
                    GlobalField::Active
                } else if next == 1 {
                    GlobalField::Timeout
                } else if next == 2 {
                    GlobalField::PreventSleep
                } else if next == 3 {
                    GlobalField::CycleTime
                } else {
                    GlobalField::HideStock
                };
            },
            FocusedSection::SaverList => self.move_highlight(delta),
        }
    }
}

} // verus!
