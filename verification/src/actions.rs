//! State changes behind the picker's commands, and the requests they leave for
//! the front end.
use vstd::prelude::*;
use crate::app::{
    error, first_at, first_where, info, lemma_first_where, spec_current, App, AppV,
    PendingAction, Request, RequestV, StatusKind, StatusMessage, StatusV, Step, StepV,
};
use crate::model::{
    decimal, decimal_of, file_name, file_name_of, is_stock, is_stock_screensaver, strs_view,
    GlobalV, LocalV, Screensaver, ScreensaverV,
};
use crate::text::{chars_of, push_chars, push_str, string_from};

verus! {

/// The text of a boolean as `{}` formats it.
pub open spec fn bool_text(b: bool) -> Seq<char> {
    if b {
        "true"@
    } else {
        "false"@
    }
}

/// The view of an optional step.
pub open spec fn opt_step(st: Option<Step>) -> Option<StepV> {
    match st {
        Some(x) => Some(x@),
        None => None,
    }
}

/// `v` with the user settings `l`.
pub open spec fn with_local(v: AppV, l: LocalV) -> AppV {
    AppV { local: l, ..v }
}

/// `v` with the stock screensavers dropped from the cycle.
pub open spec fn drop_stock(v: AppV) -> AppV {
    AppV { local: LocalV { selected_paths: non_stock(v.local.selected_paths), ..v.local }, ..v }
}

/// `v` with the request `r` pending, to be followed by `st`.
pub open spec fn with_request(v: AppV, r: RequestV, st: Option<StepV>) -> AppV {
    AppV { request: Some(r), awaiting: st, ..v }
}

/// The user settings with `last_selected` set to the highlighted screensaver's
/// file name, when there is one.
pub open spec fn remember_current(v: AppV) -> LocalV {
    match spec_current(v) {
        Some(s) => match file_name(s.path) {
            Some(f) => LocalV { last_selected: Some(f), ..v.local },
            None => v.local,
        },
        None => v.local,
    }
}

/// The paths of `s` that are not stock screensavers, in order.
pub open spec fn non_stock(s: Seq<Seq<char>>) -> Seq<Seq<char>>
    decreases s.len(),
{
    if s.len() == 0 {
        s
    } else {
        let r = non_stock(s.drop_last());
        if is_stock(s.last()) {
            r
        } else {
            r.push(s.last())
        }
    }
}

/// `active` toggled; the global settings to be saved.
pub open spec fn spec_toggle_active(v: AppV) -> AppV {
    with_request(
        AppV { global: GlobalV { active: !v.global.active, ..v.global }, ..v },
        RequestV::SaveGlobal,
        Some(StepV::ActiveSaved),
    )
}

/// Sleep prevention toggled and the highlighted screensaver remembered; the user settings to be saved.
pub open spec fn spec_toggle_prevent_sleep(v: AppV) -> AppV {
    let l = remember_current(v);
    with_request(
        AppV { local: LocalV { prevent_sleep: !v.local.prevent_sleep, ..l }, ..v },
        RequestV::SaveLocal,
        Some(StepV::PreventSleepSaved),
    )
}

/// The stock filter toggled (hiding it also drops stock screensavers from the
/// cycle) and the highlighted screensaver remembered; the user settings to be saved.
pub open spec fn spec_toggle_hide_stock(v: AppV) -> AppV {
    let hide = !v.local.hide_stock;
    let l = remember_current(v);
    let sel = if hide {
        non_stock(v.local.selected_paths)
    } else {
        v.local.selected_paths
    };
    with_request(
        AppV { local: LocalV { hide_stock: hide, selected_paths: sel, ..l }, ..v },
        RequestV::SaveLocal,
        Some(StepV::HideStockSaved),
    )
}

/// A `u32` read as an `i32` (two's complement).
pub open spec fn wrap32(t: u32) -> int {
    if t <= 0x7fff_ffff {
        t as int
    } else {
        t - 0x1_0000_0000
    }
}

/// `x` clamped to `[lo, hi]`.
pub open spec fn clamp(x: int, lo: int, hi: int) -> int {
    if x < lo {
        lo
    } else if x > hi {
        hi
    } else {
        x
    }
}

/// Whether one step of `delta` units of `step` from `t` stays within 32-bit arithmetic.
pub open spec fn step_ok(t: u32, delta: i32, step: int) -> bool {
    i32::MIN <= delta * step <= i32::MAX && i32::MIN <= wrap32(t) + delta * step <= i32::MAX
}

/// The timeout after `delta` steps of one minute, kept within 1 minute to 2 hours.
pub open spec fn next_timeout(t: u32, delta: i32) -> u32 {
    clamp(wrap32(t) + delta * 60, 60, 7200) as u32
}

/// The cycle time after `delta` steps of five seconds, kept within 5 seconds to 10 minutes.
pub open spec fn next_cycle_time(t: u32, delta: i32) -> u32 {
    clamp(wrap32(t) + delta * 5, 5, 600) as u32
}

/// The timeout moved by `delta` steps; the global settings to be saved when it changed.
pub open spec fn spec_adjust_timeout(v: AppV, delta: i32) -> AppV {
    let n = next_timeout(v.global.timeout, delta);
    if n == v.global.timeout {
        v
    } else {
        with_request(
            AppV { global: GlobalV { timeout: n, ..v.global }, ..v },
            RequestV::SaveGlobal,
            Some(StepV::TimeoutSaved),
        )
    }
}

/// The cycle time moved by `delta` steps; the user settings to be saved when it changed.
pub open spec fn spec_adjust_cycle_time(v: AppV, delta: i32) -> AppV {
    let n = next_cycle_time(v.local.random_cycle_secs, delta);
    if n == v.local.random_cycle_secs {
        v
    } else {
        with_request(
            AppV { local: LocalV { random_cycle_secs: n, ..v.local }, ..v },
            RequestV::SaveLocal,
            Some(StepV::CycleTimeSaved),
        )
    }
}

/// Whether the highlighted screensaver must be downloaded first: it comes from
/// the registry and its file is not on disk.
pub open spec fn needs_download(v: AppV, present: bool) -> bool {
    match spec_current(v) {
        Some(s) => s.download_url is Some && !present,
        None => false,
    }
}

/// The download of the highlighted screensaver started, `action` to follow it.
pub open spec fn spec_trigger(v: AppV, action: PendingAction) -> AppV {
    let s = spec_current(v)->0;
    AppV {
        pending_action: Some(action),
        request: Some(RequestV::StartDownload { name: s.name, url: s.download_url->0 }),
        awaiting: None,
        ..v
    }
}

/// The highlighted screensaver put into the cycle, or taken out of it; the user
/// settings to be saved, then the selection applied when `then_apply`.
pub open spec fn spec_toggle_selection_core(v: AppV, then_apply: bool) -> AppV {
    let s = spec_current(v)->0;
    let sel = v.local.selected_paths;
    let pos = first_at(sel, s.path);
    let (sel2, text) = if pos >= 0 {
        (sel.remove(pos), "Deselected: "@ + s.name)
    } else {
        (sel.push(s.path), "Selected: "@ + s.name)
    };
    with_request(
        AppV { local: LocalV { selected_paths: sel2, ..v.local }, status: info(text), ..v },
        RequestV::SaveLocal,
        Some(StepV::SelectionSaved { then_apply }),
    )
}

/// Toggle the highlighted screensaver's place in the cycle (downloading it first when needed).
pub open spec fn spec_toggle_selection(v: AppV, present: bool) -> AppV {
    if needs_download(v, present) {
        spec_trigger(v, PendingAction::ToggleSelection)
    } else if spec_current(v) is None {
        v
    } else {
        spec_toggle_selection_core(v, false)
    }
}

/// The name shown for the single selected screensaver at `p`: that of the first
/// listed screensaver with this path, else a generic one.
pub open spec fn selected_name(ss: Seq<ScreensaverV>, p: Seq<char>) -> Seq<char> {
    let k = first_where(ss, |s: ScreensaverV| s.path == p);
    if k >= 0 {
        ss[k].name
    } else {
        "Selected Screensaver"@
    }
}

/// The cycle applied as the system screensaver: with several screensavers
/// selected, the picker itself (which runs the cycle); with one, that one;
/// with none, the screensaver is turned off.  The global settings to be saved.
pub open spec fn spec_apply_core(v: AppV) -> AppV {
    let sel = v.local.selected_paths;
    let count = sel.len();
    let (scr, act, text) = if count > 1 {
        (v.host.self_path, true, "Applied cycle of "@ + decimal(count) + " screensavers"@)
    } else if count == 1 {
        (sel[0], true, "Applied: "@ + selected_name(v.screensavers, sel[0]))
    } else {
        (Seq::<char>::empty(), false, "Screensaver deactivated (turned off)"@)
    };
    with_request(
        AppV { global: GlobalV { active_scr: scr, active: act, ..v.global }, status: info(text), ..v },
        RequestV::SaveGlobal,
        Some(StepV::ApplySaved),
    )
}

/// Apply the selection (downloading the highlighted screensaver first when needed).
pub open spec fn spec_apply(v: AppV, present: bool) -> AppV {
    if needs_download(v, present) {
        spec_trigger(v, PendingAction::Apply)
    } else {
        spec_apply_core(v)
    }
}

/// Toggle the highlighted screensaver's place in the cycle, then apply the selection.
pub open spec fn spec_toggle_and_apply(v: AppV, present: bool) -> AppV {
    if needs_download(v, present) {
        spec_trigger(v, PendingAction::ToggleAndApply)
    } else if spec_current(v) is None {
        spec_apply_core(v)
    } else {
        spec_toggle_selection_core(v, true)
    }
}

/// Launch the highlighted screensaver with `arg`, waiting with `st`.
pub open spec fn spec_launch(v: AppV, arg: Seq<char>, st: StepV) -> AppV {
    let s = spec_current(v)->0;
    with_request(v, RequestV::Launch { path: s.path, arg }, Some(st))
}

/// Show the highlighted screensaver full screen (downloading it first when needed).
pub open spec fn spec_preview(v: AppV, present: bool) -> AppV {
    if needs_download(v, present) {
        spec_trigger(v, PendingAction::Preview)
    } else if spec_current(v) is None {
        v
    } else {
        spec_launch(v, "/s"@, StepV::Previewed)
    }
}

/// Open the highlighted screensaver's settings (downloading it first when needed).
pub open spec fn spec_configure(v: AppV, present: bool) -> AppV {
    if needs_download(v, present) {
        spec_trigger(v, PendingAction::Configure)
    } else if spec_current(v) is None {
        v
    } else {
        spec_launch(v, "/c"@, StepV::Configured { name: spec_current(v)->0.name })
    }
}

/// Download the highlighted screensaver when it is a registry entry not yet on
/// disk, with no action to follow; otherwise nothing happens.
pub open spec fn spec_download(v: AppV, present: bool) -> AppV {
    if needs_download(v, present) {
        let s = spec_current(v)->0;
        AppV {
            pending_action: None,
            request: Some(RequestV::StartDownload { name: s.name, url: s.download_url->0 }),
            awaiting: None,
            ..v
        }
    } else {
        v
    }
}

/// The `d` key on the list: a registry screensaver not yet on disk is
/// downloaded; any other is deleted.
pub open spec fn spec_download_or_delete(v: AppV, present: bool) -> AppV {
    if needs_download(v, present) {
        spec_download(v, present)
    } else {
        spec_delete(v, present)
    }
}

/// Delete the highlighted screensaver's file: refused for stock screensavers and
/// for files not on disk.
pub open spec fn spec_delete(v: AppV, present: bool) -> AppV {
    match spec_current(v) {
        None => v,
        Some(s) => if is_stock(s.path) {
            AppV { status: error("Cannot delete stock Windows screensavers."@), ..v }
        } else if !present {
            AppV { status: error("Screensaver is not downloaded locally."@), ..v }
        } else {
            with_request(
                v,
                RequestV::RemoveFile { path: s.path },
                Some(StepV::Deleted { path: s.path, name: s.name }),
            )
        },
    }
}

/// Rediscover the installed screensavers.
pub open spec fn spec_refresh(v: AppV) -> AppV {
    with_request(v, RequestV::Discover, Some(StepV::Refreshed))
}

/// An information status with text `text`.
pub fn info_msg(text: String) -> (m: StatusMessage)
    ensures
        Some(m@) == info(text@),
{
    StatusMessage { text, kind: StatusKind::Info }
}

/// An error status with text `text`.
pub fn error_msg(text: String) -> (m: StatusMessage)
    ensures
        Some(m@) == error(text@),
{
    StatusMessage { text, kind: StatusKind::Error }
}

/// `a` followed by `b`.
pub fn join2(a: &str, b: &str) -> (s: String)
    ensures
        s@ == a@ + b@,
{
    let mut s = String::new();
    push_str(&mut s, a);
    push_str(&mut s, b);
    s
}

/// The text of a boolean.
pub fn bool_str(b: bool) -> (s: &'static str)
    ensures
        s@ == bool_text(b),
{
    if b {
        "true"
    } else {
        "false"
    }
}

fn copy_string(s: &String) -> (r: String)
    ensures
        r@ == s@,
{
    s.clone()
}

impl App {
    fn set_request(&mut self, r: Request, st: Option<Step>)
        ensures
            final(self)@ == with_request(old(self)@, r@, opt_step(st)),
    {
        self.request = Some(r);
        self.awaiting = st;
    }

    fn remember_current(&mut self)
        ensures
            final(self)@ == with_local(old(self)@, remember_current(old(self)@)),
    {
        let name = match self.current_screensaver() {
            Some(s) => file_name_of(s.path.as_str()),
            None => None,
        };
        if let Some(n) = name {
            self.local.last_selected = Some(n);
        }
    }

    /// Toggle the global `active` flag in the registry.
    pub fn toggle_active(&mut self)
        ensures
            final(self)@ == spec_toggle_active(old(self)@),
    {
        self.global.active = !self.global.active;
        self.set_request(Request::SaveGlobal, Some(Step::ActiveSaved));
    }

    /// Toggle the "prevent system sleep" mode.  The state lives in
    /// `LocalConfig` because it's a per-user preference, not a system one.
    pub fn toggle_prevent_sleep(&mut self)
        ensures
            final(self)@ == spec_toggle_prevent_sleep(old(self)@),
    {
        self.local.prevent_sleep = !self.local.prevent_sleep;
        self.remember_current();
        self.set_request(Request::SaveLocal, Some(Step::PreventSleepSaved));
    }

    fn drop_stock_selected(&mut self)
        ensures
            final(self)@ == drop_stock(old(self)@),
    {
        let mut old_sel: Vec<String> = Vec::new();
        std::mem::swap(&mut old_sel, &mut self.local.selected_paths);
        let ghost sv = strs_view(old_sel@);
        let mut kept: Vec<String> = Vec::new();
        let mut i: usize = 0;
        while i < old_sel.len()
            invariant
                sv == strs_view(old_sel@),
                i <= old_sel@.len(),
                strs_view(kept@) == non_stock(sv.take(i as int)),
            decreases old_sel@.len() - i,
        {
            assert(sv.take(i + 1).drop_last() == sv.take(i as int));
            if !is_stock_screensaver(old_sel[i].as_str()) {
                let ghost k0 = kept@;
                kept.push(copy_string(&old_sel[i]));
                assert(strs_view(kept@) =~= strs_view(k0).push(sv[i as int]));
            }
            i = i + 1;
        }
        assert(sv.take(old_sel@.len() as int) == sv);
        self.local.selected_paths = kept;
    }

    /// Toggle hiding stock windows screensavers.
    pub fn toggle_hide_stock(&mut self)
        ensures
            final(self)@ == spec_toggle_hide_stock(old(self)@),
    {
        self.local.hide_stock = !self.local.hide_stock;
        if self.local.hide_stock {
            self.drop_stock_selected();
        }
        self.remember_current();
        self.set_request(Request::SaveLocal, Some(Step::HideStockSaved));
    }

    /// Adjust the screensaver timeout by one step.
    pub fn adjust_timeout(&mut self, delta: i32)
        requires
            step_ok(old(self).global.timeout, delta, 60),
        ensures
            final(self)@ == spec_adjust_timeout(old(self)@, delta),
    {
        let t = self.global.timeout;
        let t32: i64 = if t <= 0x7fff_ffff {
            t as i64
        } else {
            t as i64 - 0x1_0000_0000
        };
        let x = t32 + (delta as i64) * 60;
        let c: i64 = if x < 60 {
            60
        } else if x > 7200 {
            7200
        } else {
            x
        };
        let next = c as u32;
        if next == self.global.timeout {
            return;
        }
        self.global.timeout = next;
        self.set_request(Request::SaveGlobal, Some(Step::TimeoutSaved));
    }

    /// Adjust the screensaver cycle time by one step.
    pub fn adjust_cycle_time(&mut self, delta: i32)
        requires
            step_ok(old(self).local.random_cycle_secs, delta, 5),
        ensures
            final(self)@ == spec_adjust_cycle_time(old(self)@, delta),
    {
        let t = self.local.random_cycle_secs;
        let t32: i64 = if t <= 0x7fff_ffff {
            t as i64
        } else {
            t as i64 - 0x1_0000_0000
        };
        let x = t32 + (delta as i64) * 5;
        let c: i64 = if x < 5 {
            5
        } else if x > 600 {
            600
        } else {
            x
        };
        let next = c as u32;
        if next == self.local.random_cycle_secs {
            return;
        }
        self.local.random_cycle_secs = next;
        self.set_request(Request::SaveLocal, Some(Step::CycleTimeSaved));
    }

    /// Start the download of the highlighted screensaver when it is a registry
    /// entry not yet on disk (`present` tells whether its file exists), `action`
    /// to follow it.  Returns whether a download was started.
    pub fn trigger_online_download(&mut self, action: PendingAction, present: bool) -> (started: bool)
        ensures
            started == needs_download(old(self)@, present),
            started ==> final(self)@ == spec_trigger(old(self)@, action),
            !started ==> final(self)@ == old(self)@,
    {
        if self.highlighted < self.screensavers.len() {
            let s = &self.screensavers[self.highlighted];
            if !present {
                if let Some(url) = &s.download_url {
                    let name = copy_string(&s.name);
                    let u = copy_string(url);
                    self.pending_action = Some(action);
                    self.request = Some(Request::StartDownload { name, url: u });
                    self.awaiting = None;
                    return true;
                }
            }
        }
        false
    }

    fn position_of_path(sel: &Vec<String>, p: &String) -> (r: Option<usize>)
        ensures
            match r {
                Some(k) => k < sel@.len() && first_at(strs_view(sel@), p@) == k,
                None => first_at(strs_view(sel@), p@) == -1,
            },
    {
        let ghost sv = strs_view(sel@);
        let mut k: usize = 0;
        while k < sel.len()
            invariant
                sv == strs_view(sel@),
                k <= sel@.len(),
                forall|j: int| 0 <= j < k ==> sv[j] != p@,
            decreases sel@.len() - k,
        {
            if sel[k] == *p {
                proof {
                    lemma_first_where(sv, |a: Seq<char>| a == p@, k as int);
                }
                return Some(k);
            }
            k = k + 1;
        }
        proof {
            lemma_first_where(sv, |a: Seq<char>| a == p@, -1);
        }
        None
    }

    pub(crate) fn toggle_selection_core(&mut self, then_apply: bool)
        requires
            spec_current(old(self)@) is Some,
        ensures
            final(self)@ == spec_toggle_selection_core(old(self)@, then_apply),
    {
        let path = copy_string(&self.screensavers[self.highlighted].path);
        let name = copy_string(&self.screensavers[self.highlighted].name);
        let ghost sel0 = strs_view(self.local.selected_paths@);
        match Self::position_of_path(&self.local.selected_paths, &path) {
            Some(pos) => {
                self.local.selected_paths.remove(pos);
                assert(strs_view(self.local.selected_paths@) =~= sel0.remove(pos as int));
                self.status = Some(info_msg(join2("Deselected: ", name.as_str())));
            },
            None => {
                self.local.selected_paths.push(path);
                assert(strs_view(self.local.selected_paths@) =~= sel0.push(path@));
                self.status = Some(info_msg(join2("Selected: ", name.as_str())));
            },
        }
        self.set_request(Request::SaveLocal, Some(Step::SelectionSaved { then_apply }));
    }

    /// Toggle selection of the highlighted screensaver for custom cycling.
    pub fn toggle_highlighted_selection(&mut self, present: bool)
        ensures
            final(self)@ == spec_toggle_selection(old(self)@, present),
    {
        if self.trigger_online_download(PendingAction::ToggleSelection, present) {
            return;
        }
        if self.highlighted >= self.screensavers.len() {
            return;
        }
        self.toggle_selection_core(false);
    }

    fn name_for_path(ss: &Vec<Screensaver>, p: &String) -> (r: String)
        ensures
            r@ == selected_name(crate::model::savers_view(ss@), p@),
    {
        let ghost sv = crate::model::savers_view(ss@);
        let ghost pred = (|s: ScreensaverV| s.path == p@);
        let mut k: usize = 0;
        while k < ss.len()
            invariant
                sv == crate::model::savers_view(ss@),
                pred == (|s: ScreensaverV| s.path == p@),
                k <= ss@.len(),
                forall|j: int| 0 <= j < k ==> !pred(#[trigger] sv[j]),
            decreases ss@.len() - k,
        {
            if ss[k].path == *p {
                proof {
                    lemma_first_where(sv, pred, k as int);
                }
                return copy_string(&ss[k].name);
            }
            k = k + 1;
        }
        proof {
            lemma_first_where(sv, pred, -1);
        }
        let mut s = String::new();
        push_str(&mut s, "Selected Screensaver");
        s
    }

    /// Apply the selection without the download check.
    pub fn apply_core(&mut self)
        ensures
            final(self)@ == spec_apply_core(old(self)@),
    {
        let count = self.local.selected_paths.len();
        if count > 1 {
            self.global.active_scr = copy_string(&self.host.self_path);
            self.global.active = true;
            let mut t = String::new();
            push_str(&mut t, "Applied cycle of ");
            let d = decimal_of(count);
            push_chars(&mut t, d.as_slice());
            push_str(&mut t, " screensavers");
            self.status = Some(info_msg(t));
        } else if count == 1 {
            let path = copy_string(&self.local.selected_paths[0]);
            let name = Self::name_for_path(&self.screensavers, &path);
            self.global.active_scr = path;
            self.global.active = true;
            self.status = Some(info_msg(join2("Applied: ", name.as_str())));
        } else {
            self.global.active_scr = String::new();
            self.global.active = false;
            let mut t = String::new();
            push_str(&mut t, "Screensaver deactivated (turned off)");
            self.status = Some(info_msg(t));
        }
        self.set_request(Request::SaveGlobal, Some(Step::ApplySaved));
    }

    /// Apply the currently-highlighted screensaver as the system screensaver.
    pub fn apply_highlighted(&mut self, present: bool)
        ensures
            final(self)@ == spec_apply(old(self)@, present),
    {
        if self.trigger_online_download(PendingAction::Apply, present) {
            return;
        }
        self.apply_core();
    }

    /// Toggle selection of the highlighted screensaver and immediately apply it to the registry.
    pub fn toggle_and_apply_highlighted(&mut self, present: bool)
        ensures
            final(self)@ == spec_toggle_and_apply(old(self)@, present),
    {
        if self.trigger_online_download(PendingAction::ToggleAndApply, present) {
            return;
        }
        if self.highlighted >= self.screensavers.len() {
            self.apply_core();
            return;
        }
        self.toggle_selection_core(true);
    }

    /// Spawn the currently-highlighted screensaver fullscreen.
    pub fn preview_highlighted(&mut self, present: bool)
        ensures
            final(self)@ == spec_preview(old(self)@, present),
    {
        if self.trigger_online_download(PendingAction::Preview, present) {
            return;
        }
        if self.highlighted >= self.screensavers.len() {
            return;
        }
        let path = copy_string(&self.screensavers[self.highlighted].path);
        let mut arg = String::new();
        push_str(&mut arg, "/s");
        self.set_request(Request::Launch { path, arg }, Some(Step::Previewed));
    }

    /// Spawn the currently-highlighted screensaver's native configuration dialog.
    pub fn configure_highlighted(&mut self, present: bool)
        ensures
            final(self)@ == spec_configure(old(self)@, present),
    {
        if self.trigger_online_download(PendingAction::Configure, present) {
            return;
        }
        if self.highlighted >= self.screensavers.len() {
            return;
        }
        let path = copy_string(&self.screensavers[self.highlighted].path);
        let name = copy_string(&self.screensavers[self.highlighted].name);
        let mut arg = String::new();
        push_str(&mut arg, "/c");
        self.set_request(Request::Launch { path, arg }, Some(Step::Configured { name }));
    }

    /// Delete a downloaded screensaver file from disk.
    pub fn delete_highlighted(&mut self, present: bool)
        ensures
            final(self)@ == spec_delete(old(self)@, present),
    {
        if self.highlighted >= self.screensavers.len() {
            return;
        }
        let path = copy_string(&self.screensavers[self.highlighted].path);
        let name = copy_string(&self.screensavers[self.highlighted].name);
        if is_stock_screensaver(path.as_str()) {
            let mut t = String::new();
            push_str(&mut t, "Cannot delete stock Windows screensavers.");
            self.status = Some(error_msg(t));
            return;
        }
        if !present {
            let mut t = String::new();
            push_str(&mut t, "Screensaver is not downloaded locally.");
            self.status = Some(error_msg(t));
            return;
        }
        let p2 = copy_string(&path);
        self.set_request(Request::RemoveFile { path }, Some(Step::Deleted { path: p2, name }));
    }

    /// Download the highlighted screensaver from the registry when its file is
    /// not on disk (`present` tells whether it is); no action follows.
    pub fn download_highlighted(&mut self, present: bool)
        ensures
            final(self)@ == spec_download(old(self)@, present),
    {
        if self.highlighted < self.screensavers.len() {
            let s = &self.screensavers[self.highlighted];
            if !present {
                if let Some(url) = &s.download_url {
                    let name = copy_string(&s.name);
                    let u = copy_string(url);
                    self.pending_action = None;
                    self.request = Some(Request::StartDownload { name, url: u });
                    self.awaiting = None;
                }
            }
        }
    }

    /// The `d` key on the list: download a registry screensaver that is not on
    /// disk, delete any other.
    pub fn download_or_delete_highlighted(&mut self, present: bool)
        ensures
            final(self)@ == spec_download_or_delete(old(self)@, present),
    {
        let missing = self.highlighted < self.screensavers.len() && !present
            && self.screensavers[self.highlighted].download_url.is_some();
        if missing {
            self.download_highlighted(present);
        } else {
            self.delete_highlighted(present);
        }
    }

    /// Re-discover screensavers and refresh the list.
    pub fn refresh_screensavers(&mut self)
        ensures
            final(self)@ == spec_refresh(old(self)@),
    {
        self.set_request(Request::Discover, Some(Step::Refreshed));
    }
}

} // verus!
