//! Building the picker's state, and the events the front end reports: the
//! system settings changed by someone else, a change of power source, and the
//! end of a download.
use vstd::prelude::*;
use crate::actions::{
    error_msg, info_msg, join2, needs_download, non_stock, spec_apply, spec_apply_core,
    spec_configure, spec_preview, spec_toggle_selection, spec_toggle_selection_core, spec_trigger,
    with_request,
};
use crate::app::{
    entries_view, error, first_where, info, lemma_first_where, spec_current, App, AppV,
    FocusedSection, GlobalField, HostInfo, HostV, PendingAction, Request, RequestV, StatusKind,
    Step, StepV,
};
use crate::model::{
    file_name, file_name_of, is_stock_screensaver, savers_view, strs_view, GlobalConfig, GlobalV,
    LocalConfig, LocalV, Screensaver, ScreensaverV,
};
use crate::styled::{lines_view, LineV, StyledLine};
use crate::text::push_str;
use crate::theme::TuiTheme;

verus! {

/// Where the highlight starts: on the first screensaver whose file name is the
/// one last applied, else on the first; never past the end of the list.
pub open spec fn initial_highlight(ss: Seq<ScreensaverV>, last: Option<Seq<char>>) -> usize {
    let k = match last {
        Some(n) => first_where(ss, |s: ScreensaverV| file_name(s.path) == Some(n)),
        None => -1,
    };
    let h = if k >= 0 {
        k
    } else {
        0
    };
    let cap = if ss.len() >= 1 {
        ss.len() - 1
    } else {
        0
    };
    (if h <= cap {
        h
    } else {
        cap
    }) as usize
}

/// The picker's state at start.  With stock screensavers hidden, they are
/// dropped from the cycle, and the user settings saved when that changed them.
pub open spec fn spec_new(ss: Seq<ScreensaverV>, g: GlobalV, l: LocalV, theme: TuiTheme, host: HostV) -> AppV {
    let sel = if l.hide_stock {
        non_stock(l.selected_paths)
    } else {
        l.selected_paths
    };
    let changed = l.hide_stock && sel.len() != l.selected_paths.len();
    AppV {
        screensavers: ss,
        highlighted: initial_highlight(ss, l.last_selected),
        focused: FocusedSection::GlobalPrefs,
        global_field: GlobalField::Active,
        global: g,
        local: LocalV { selected_paths: sel, ..l },
        theme,
        status: None,
        should_quit: false,
        registry_entries: Seq::empty(),
        pending_action: None,
        show_help: false,
        show_markdown: None,
        markdown_lines: Seq::empty(),
        markdown_scroll: 0,
        on_battery: host.on_battery,
        host,
        request: if changed {
            Some(RequestV::SaveLocal)
        } else {
            None
        },
        awaiting: if changed {
            Some(StepV::Ignored)
        } else {
            None
        },
    }
}

/// The system settings read back from the system: taken over, with a status,
/// when they differ from the picker's in the active screensaver, the active
/// flag or the timeout.
pub open spec fn spec_registry_sync(v: AppV, current: GlobalV) -> (AppV, bool) {
    if current.active_scr != v.global.active_scr || current.active != v.global.active || current.timeout
        != v.global.timeout {
        (
            AppV {
                global: current,
                status: info("External registry change detected! Config reloaded."@),
                ..v
            },
            true,
        )
    } else {
        (v, false)
    }
}

/// The power source seen now: a change is recorded, with a status naming the new source.
pub open spec fn spec_power(v: AppV, on_battery_now: bool) -> AppV {
    if on_battery_now != v.on_battery {
        AppV {
            on_battery: on_battery_now,
            status: info(
                "Power Source Changed: "@ + if on_battery_now {
                    "Battery (Power-Saving Throttling Enabled)"@
                } else {
                    "AC Power (Full Speed)"@
                },
            ),
            ..v
        }
    } else {
        v
    }
}

/// The download of `name` finished: rediscover the screensavers, then find it.
pub open spec fn spec_download_succeeded(v: AppV, name: Seq<char>) -> AppV {
    with_request(v, RequestV::Discover, Some(StepV::Downloaded { name }))
}

/// The download failed with `msg`: the action waiting for it is dropped.
pub open spec fn spec_download_failed(v: AppV, msg: Seq<char>) -> AppV {
    AppV { pending_action: None, status: error("Download failed: "@ + msg), ..v }
}

/// The action that waited for a download, run now (`present`: whether the
/// highlighted screensaver's file is on disk).
pub open spec fn spec_run_pending(v: AppV, present: bool) -> AppV {
    let v0 = AppV { pending_action: None, ..v };
    match v.pending_action {
        None => v0,
        Some(a) => match a {
            PendingAction::Apply => spec_apply(v0, present),
            PendingAction::ToggleSelection => spec_toggle_selection(v0, present),
            PendingAction::Preview => spec_preview(v0, present),
            PendingAction::Configure => spec_configure(v0, present),
            PendingAction::ToggleAndApply => if needs_download(v0, present) {
                spec_trigger(v0, PendingAction::Apply)
            } else if spec_current(v0) is None {
                spec_apply_core(v0)
            } else {
                spec_toggle_selection_core(v0, true)
            },
        },
    }
}

fn non_stock_paths(v: &Vec<String>) -> (r: Vec<String>)
    ensures
        strs_view(r@) == non_stock(strs_view(v@)),
{
    let ghost sv = strs_view(v@);
    let mut kept: Vec<String> = Vec::new();
    let mut i: usize = 0;
    while i < v.len()
        invariant
            sv == strs_view(v@),
            i <= v@.len(),
            strs_view(kept@) == non_stock(sv.take(i as int)),
        decreases v@.len() - i,
    {
        assert(sv.take(i + 1).drop_last() == sv.take(i as int));
        if !is_stock_screensaver(v[i].as_str()) {
            let ghost k0 = kept@;
            kept.push(v[i].clone());
            assert(strs_view(kept@) =~= strs_view(k0).push(sv[i as int]));
        }
        i = i + 1;
    }
    assert(sv.take(v@.len() as int) == sv);
    kept
}

fn find_file(ss: &Vec<Screensaver>, name: &String) -> (r: Option<usize>)
    ensures
        match r {
            Some(k) => first_where(savers_view(ss@), |s: ScreensaverV| file_name(s.path) == Some(name@)) == k,
            None => first_where(savers_view(ss@), |s: ScreensaverV| file_name(s.path) == Some(name@)) == -1,
        },
{
    let ghost sv = savers_view(ss@);
    let ghost pred = (|s: ScreensaverV| file_name(s.path) == Some(name@));
    let mut k: usize = 0;
    while k < ss.len()
        invariant
            sv == savers_view(ss@),
            pred == (|s: ScreensaverV| file_name(s.path) == Some(name@)),
            k <= ss@.len(),
            forall|j: int| 0 <= j < k ==> !pred(#[trigger] sv[j]),
        decreases ss@.len() - k,
    {
        let f = file_name_of(ss[k].path.as_str());
        let hit = match f {
            Some(fv) => fv == *name,
            None => false,
        };
        if hit {
            proof {
                lemma_first_where(sv, pred, k as int);
            }
            return Some(k);
        }
        k = k + 1;
    }
    proof {
        lemma_first_where(sv, pred, -1);
    }
    None
}

fn start_index(ss: &Vec<Screensaver>, last: &Option<String>) -> (h: usize)
    ensures
        h == initial_highlight(savers_view(ss@), crate::registry::opt_view(*last)),
{
    let h: usize = match last {
        Some(name) => match find_file(ss, name) {
            Some(k) => k,
            None => 0,
        },
        None => 0,
    };
    let cap = if ss.len() >= 1 {
        ss.len() - 1
    } else {
        0
    };
    if h <= cap {
        h
    } else {
        cap
    }
}

impl App {
    /// The picker's state at start, from the discovered screensavers, the
    /// system and user settings, the theme, and what the host environment tells.
    pub fn new(
        screensavers: Vec<Screensaver>,
        global: GlobalConfig,
        local: LocalConfig,
        theme: TuiTheme,
        host: HostInfo,
    ) -> (app: App)
        ensures
            app@ == spec_new(savers_view(screensavers@), global@, local@, theme, host@),
    {
        let mut local = local;
        let mut request: Option<Request> = None;
        let mut awaiting: Option<Step> = None;
        if local.hide_stock {
            let orig_len = local.selected_paths.len();
            local.selected_paths = non_stock_paths(&local.selected_paths);
            if local.selected_paths.len() != orig_len {
                request = Some(Request::SaveLocal);
                awaiting = Some(Step::Ignored);
            }
        }
        let highlighted = start_index(&screensavers, &local.last_selected);
        let on_battery = host.on_battery;
        let app = App {
            screensavers,
            highlighted,
            focused: FocusedSection::GlobalPrefs,
            global_field: GlobalField::Active,
            global,
            local,
            theme,
            status: None,
            should_quit: false,
            registry_entries: Vec::new(),
            pending_action: None,
            show_help: false,
            show_markdown: None,
            markdown_lines: Vec::new(),
            markdown_scroll: 0,
            on_battery,
            host,
            request,
            awaiting,
        };
        assert(entries_view(app.registry_entries@) =~= Seq::<crate::registry::RegistryEntryV>::empty());
        assert(lines_view(app.markdown_lines@) =~= Seq::<LineV>::empty());
        app
    }

    /// Check if the registry matches the global config (`current`, as read from
    /// the system), reload if out of sync.
    pub fn check_registry_sync(&mut self, current: GlobalConfig) -> (changed: bool)
        ensures
            (final(self)@, changed) == spec_registry_sync(old(self)@, current@),
    {
        if !(current.active_scr == self.global.active_scr) || current.active != self.global.active
            || current.timeout != self.global.timeout {
            self.global = current;
            let mut t = String::new();
            push_str(&mut t, "External registry change detected! Config reloaded.");
            self.status = Some(info_msg(t));
            true
        } else {
            false
        }
    }

    /// Record the power source seen now (`on_battery_now`), announcing a change.
    pub fn sync_power_status_if_needed(&mut self, on_battery_now: bool)
        ensures
            final(self)@ == spec_power(old(self)@, on_battery_now),
    {
        if on_battery_now != self.on_battery {
            self.on_battery = on_battery_now;
            let state = if on_battery_now {
                "Battery (Power-Saving Throttling Enabled)"
            } else {
                "AC Power (Full Speed)"
            };
            self.status = Some(info_msg(join2("Power Source Changed: ", state)));
        }
    }

    /// The download of `name` finished: rediscover the screensavers, then highlight it.
    pub fn download_succeeded(&mut self, name: String)
        ensures
            final(self)@ == spec_download_succeeded(old(self)@, name@),
    {
        self.request = Some(Request::Discover);
        self.awaiting = Some(Step::Downloaded { name });
    }

    /// The download failed with the message `msg`.
    pub fn download_failed(&mut self, msg: &str)
        ensures
            final(self)@ == spec_download_failed(old(self)@, msg@),
    {
        self.pending_action = None;
        self.status = Some(error_msg(join2("Download failed: ", msg)));
    }

    /// Run the action that waited for a download.
    pub fn run_pending_action(&mut self, present: bool)
        ensures
            final(self)@ == spec_run_pending(old(self)@, present),
    {
        let mut p: Option<PendingAction> = None;
        std::mem::swap(&mut p, &mut self.pending_action);
        match p {
            None => {},
            Some(a) => match a {
                PendingAction::Apply => self.apply_highlighted(present),
                PendingAction::ToggleSelection => self.toggle_highlighted_selection(present),
                PendingAction::Preview => self.preview_highlighted(present),
                PendingAction::Configure => self.configure_highlighted(present),
                PendingAction::ToggleAndApply => {
                    if self.trigger_online_download(PendingAction::ToggleSelection, present) {
                        self.trigger_online_download(PendingAction::Apply, present);
                        return;
                    }
                    if self.highlighted >= self.screensavers.len() {
                        self.apply_core();
                        return;
                    }
                    self.toggle_selection_core(true);
                },
            },
        }
    }
}

/// How long an information status stays up after a key press, in milliseconds.
pub open spec fn status_hold_ms() -> int {
    7500
}

/// How often the system settings are read back, in milliseconds.
pub open spec fn sync_period_ms() -> int {
    2500
}

/// The clocks of the event loop: how long the current information status
/// stays, and the time since the system settings were last read back.
#[derive(Debug, Clone, Copy, PartialEq, Eq, Structural)]
pub struct LoopTimers {
    pub status_ttl: u32,
    pub sync_timer: u32,
}

/// What the event loop does after some time passed.
#[derive(Debug, Clone, Copy, PartialEq, Eq, Structural)]
pub struct TickOutcome {
    /// The information status has been up long enough: clear it.
    pub expire_status: bool,
    /// Read the system settings back now.
    pub check_sync: bool,
}

impl LoopTimers {
    /// Both clocks at rest.
    pub fn new() -> (t: LoopTimers)
        ensures
            t.status_ttl == 0,
            t.sync_timer == 0,
    {
        LoopTimers { status_ttl: 0, sync_timer: 0 }
    }

    /// A key was pressed: the status (re)starts its hold time.
    pub fn key_pressed(&mut self)
        ensures
            final(self).status_ttl == status_hold_ms(),
            final(self).sync_timer == old(self).sync_timer,
    {
        self.status_ttl = 7500;
    }

    /// `tick_ms` milliseconds passed: the status hold runs down (saturating at
    /// zero; reaching zero expires the status) and the sync clock runs up
    /// (saturating; reaching the period asks for a read-back and restarts it).
    pub fn tick(&mut self, tick_ms: u32) -> (o: TickOutcome)
        ensures
            final(self).status_ttl == (if old(self).status_ttl > tick_ms { old(self).status_ttl - tick_ms } else { 0 }),
            o.expire_status == (old(self).status_ttl > 0 && final(self).status_ttl == 0),
            ({
                let up = if old(self).sync_timer + tick_ms > u32::MAX { u32::MAX as int } else { old(self).sync_timer + tick_ms };
                &&& o.check_sync == (up >= sync_period_ms())
                &&& final(self).sync_timer == (if up >= sync_period_ms() { 0 } else { up })
            }),
    {
        let mut expire = false;
        if self.status_ttl > 0 {
            self.status_ttl = self.status_ttl.saturating_sub(tick_ms);
            expire = self.status_ttl == 0;
        }
        self.sync_timer = self.sync_timer.saturating_add(tick_ms);
        let check = self.sync_timer >= 2500;
        if check {
            self.sync_timer = 0;
        }
        TickOutcome { expire_status: expire, check_sync: check }
    }
}

/// How long the event loop waits for input: 30 ms while a download animates,
/// else 250 ms, doubled on battery power.
pub fn poll_interval_ms(animating: bool, on_battery: bool) -> (ms: u64)
    ensures
        ms == (if animating { 30u64 } else if on_battery { 500u64 } else { 250u64 }),
{
    if animating {
        30
    } else if on_battery {
        500
    } else {
        250
    }
}

impl App {
    /// An information status that has been up long enough goes away; an error stays.
    pub fn expire_info_status(&mut self)
        ensures
            final(self)@ == (match old(self)@.status {
                Some(st) => if st.1 == StatusKind::Info {
                    AppV { status: None, ..old(self)@ }
                } else {
                    old(self)@
                },
                None => old(self)@,
            }),
    {
        let info = match &self.status {
            Some(m) => m.kind == StatusKind::Info,
            None => false,
        };
        if info {
            self.status = None;
        }
    }
}

/// Where the header's Help button starts, counted from the header's left
/// edge: right-aligned when the header line is wide enough for the left
/// text (`left_len` cells) and both buttons, else right after the left text.
pub open spec fn help_offset(inner_width: int, left_len: int) -> int {
    if inner_width > left_len + 15 {
        1 + inner_width - 15
    } else {
        1 + left_len + 3
    }
}

/// A clickable span of the header: its row, and its first and past-last column.
pub type ButtonBounds = (u16, u16, u16);

/// The Help and Quit buttons of a header box at column `x`, row `y`, `width`
/// cells wide, whose line starts with `left_len` cells of text; each button is
/// six cells wide, with a three-cell separator between them.
pub fn header_buttons(x: u16, y: u16, width: u16, left_len: usize) -> (r: (ButtonBounds, ButtonBounds))
    requires
        y < u16::MAX,
        x + help_offset(if width >= 2 { width - 2 } else { 0 }, left_len as int) + 15 <= u16::MAX,
    ensures
        ({
            let h = x + help_offset(if width >= 2 { width - 2 } else { 0 }, left_len as int);
            &&& r.0 == (((y + 1) as u16, h as u16, (h + 6) as u16))
            &&& r.1 == (((y + 1) as u16, (h + 9) as u16, (h + 15) as u16))
        }),
{
    let inner: u64 = if width >= 2 { (width - 2) as u64 } else { 0 };
    let left = left_len as u64;
    let off: u64 = if inner > left + 15 { 1 + inner - 15 } else { 1 + left + 3 };
    let h = x as u64 + off;
    let row = y + 1;
    ((row, h as u16, (h + 6) as u16), (row, (h + 9) as u16, (h + 15) as u16))
}

/// Whether the cell at `column`, `row` lies on the button `b`.
pub open spec fn on_button(b: Option<ButtonBounds>, column: u16, row: u16) -> bool {
    match b {
        Some(t) => row == t.0 && t.1 <= column && column < t.2,
        None => false,
    }
}

/// The help overlay opened or closed, with a status saying which.
pub open spec fn spec_toggle_help(v: AppV) -> AppV {
    AppV {
        show_help: !v.show_help,
        status: info(if !v.show_help { "Help overlay active. Press ESC/q to close."@ } else { "Help overlay closed."@ }),
        ..v
    }
}

/// A left click at `column`, `row`: on the Quit button the picker ends, on the
/// Help button the help overlay opens or closes; elsewhere nothing happens.
pub open spec fn spec_click(v: AppV, column: u16, row: u16, help: Option<ButtonBounds>, quit: Option<ButtonBounds>) -> AppV {
    if on_button(quit, column, row) {
        AppV { should_quit: true, ..v }
    } else if on_button(help, column, row) {
        spec_toggle_help(v)
    } else {
        v
    }
}

impl App {
    /// A left mouse click on the header buttons (`help` and `quit` are where
    /// they were drawn, when they were).
    pub fn click(&mut self, column: u16, row: u16, help: Option<ButtonBounds>, quit: Option<ButtonBounds>)
        ensures
            final(self)@ == spec_click(old(self)@, column, row, help, quit),
    {
        let on_quit = match quit {
            Some(t) => row == t.0 && t.1 <= column && column < t.2,
            None => false,
        };
        let on_help = match help {
            Some(t) => row == t.0 && t.1 <= column && column < t.2,
            None => false,
        };
        if on_quit {
            self.should_quit = true;
        } else if on_help {
            self.show_help = !self.show_help;
            let mut t = String::new();
            if self.show_help {
                push_str(&mut t, "Help overlay active. Press ESC/q to close.");
            } else {
                push_str(&mut t, "Help overlay closed.");
            }
            self.status = Some(info_msg(t));
        }
    }
}

} // verus!
