//! Keyboard input and focus control handling.
use vstd::prelude::*;
use crate::actions::{
    spec_adjust_cycle_time, spec_adjust_timeout, spec_configure, spec_download_or_delete, spec_preview,
    spec_refresh, spec_toggle_active, spec_toggle_and_apply, spec_toggle_hide_stock,
    spec_toggle_prevent_sleep, step_ok, info_msg, with_request,
};
use crate::app::{
    info, move_ok, spec_cycle_focus, spec_move_focus, App, AppV, FocusedSection, GlobalField,
    KeyCode, KeyModifiers, Request, RequestV, StatusKind, Step, StepV,
};
use crate::text::push_str;

verus! {

/// The embedded document that function key `n` (1 to 7) opens.
pub open spec fn doc_name(n: u8) -> Seq<char> {
    if n == 1 {
        "README.md"@
    } else if n == 2 {
        "SUPPORT.md"@
    } else if n == 3 {
        "LICENSE.md"@
    } else if n == 4 {
        "COPYRIGHT.md"@
    } else if n == 5 {
        "PRIVACY.md"@
    } else if n == 6 {
        "SECURITY.md"@
    } else {
        "CONTRIBUTING.md"@
    }
}

/// Whether `code` is one of the function keys F1 to F7, which open the documents.
pub open spec fn is_doc_key(code: KeyCode) -> bool {
    match code {
        KeyCode::F(n) => 1 <= n && n <= 7,
        _ => false,
    }
}

/// The document of function key `code` to be fetched and shown.
pub open spec fn spec_request_doc(v: AppV, code: KeyCode) -> AppV {
    let n = match code {
        KeyCode::F(n) => n,
        _ => 0,
    };
    with_request(
        v,
        RequestV::LoadDocument { name: doc_name(n) },
        Some(StepV::Document { name: doc_name(n) }),
    )
}

/// Left arrow: one step down for the timeout or cycle time when focused.
pub open spec fn spec_on_left(v: AppV) -> AppV {
    if v.focused == FocusedSection::GlobalPrefs {
        match v.global_field {
            GlobalField::Timeout => spec_adjust_timeout(v, -1i32),
            GlobalField::CycleTime => spec_adjust_cycle_time(v, -1i32),
            _ => v,
        }
    } else {
        v
    }
}

/// Right arrow: one step up for the timeout or cycle time when focused.
pub open spec fn spec_on_right(v: AppV) -> AppV {
    if v.focused == FocusedSection::GlobalPrefs {
        match v.global_field {
            GlobalField::Timeout => spec_adjust_timeout(v, 1i32),
            GlobalField::CycleTime => spec_adjust_cycle_time(v, 1i32),
            _ => v,
        }
    } else {
        v
    }
}

/// Space / Enter: toggle the focused preference, or toggle and apply the highlighted screensaver.
pub open spec fn spec_on_activate(v: AppV, present: bool) -> AppV {
    match v.focused {
        FocusedSection::GlobalPrefs => match v.global_field {
            GlobalField::Active => spec_toggle_active(v),
            GlobalField::PreventSleep => spec_toggle_prevent_sleep(v),
            GlobalField::HideStock => spec_toggle_hide_stock(v),
            _ => v,
        },
        FocusedSection::SaverList => spec_toggle_and_apply(v, present),
    }
}

/// A key in the main view (neither the help overlay nor the document viewer open).
#[verifier::opaque]
pub open spec fn spec_main_key(v: AppV, code: KeyCode, present: bool) -> AppV {
    match code {
        KeyCode::Char(c) => if c == 'r' || c == 'R' {
            spec_refresh(v)
        } else if c == ' ' {
            spec_on_activate(v, present)
        } else if c == 'p' || c == 'P' || c == 't' || c == 'T' {
            spec_preview(v, present)
        } else if c == 'c' || c == 'C' {
            spec_configure(v, present)
        } else if c == 'd' || c == 'D' {
            if v.focused == FocusedSection::SaverList {
                spec_download_or_delete(v, present)
            } else {
                v
            }
        } else if c == 'h' || c == 'H' {
            AppV { show_help: true, status: info("Help overlay active. Press ESC/q to close."@), ..v }
        } else {
            v
        },
        KeyCode::Tab | KeyCode::BackTab => spec_cycle_focus(v),
        KeyCode::Up => spec_move_focus(v, -1i32),
        KeyCode::Down => spec_move_focus(v, 1i32),
        KeyCode::Left => spec_on_left(v),
        KeyCode::Right => spec_on_right(v),
        KeyCode::Enter => spec_on_activate(v, present),
        KeyCode::F(_) => if is_doc_key(code) {
            spec_request_doc(v, code)
        } else {
            v
        },
        _ => v,
    }
}

/// A key while the help overlay is open: q, Esc or h closes it; F1 to F7
/// close it and open a document.
#[verifier::opaque]
pub open spec fn spec_help_key(v: AppV, code: KeyCode) -> AppV {
    if code == KeyCode::Char('q') || code == KeyCode::Char('Q') || code == KeyCode::Esc || code
        == KeyCode::Char('h') || code == KeyCode::Char('H') {
        AppV { show_help: false, status: info("Help overlay closed."@), ..v }
    } else if is_doc_key(code) {
        spec_request_doc(AppV { show_help: false, ..v }, code)
    } else {
        v
    }
}

/// A key while a document is shown: q or Esc closes it, F1 to F7 switch
/// documents, the arrows scroll by one line (down only while more than ten
/// lines follow) and the page keys by fifteen (a page down that would reach
/// the end lands on the tenth line from the end).
#[verifier::opaque]
pub open spec fn spec_doc_key(v: AppV, code: KeyCode) -> AppV {
    let len = v.markdown_lines.len();
    let sc = v.markdown_scroll;
    if code == KeyCode::Char('q') || code == KeyCode::Char('Q') || code == KeyCode::Esc {
        AppV { show_markdown: None, ..v }
    } else if is_doc_key(code) {
        spec_request_doc(v, code)
    } else if code == KeyCode::Up {
        AppV { markdown_scroll: if sc >= 1 { (sc - 1) as usize } else { 0 }, ..v }
    } else if code == KeyCode::Down {
        if sc + 10 < len {
            AppV { markdown_scroll: (sc + 1) as usize, ..v }
        } else {
            v
        }
    } else if code == KeyCode::PageUp {
        AppV { markdown_scroll: if sc >= 15 { (sc - 15) as usize } else { 0 }, ..v }
    } else if code == KeyCode::PageDown {
        if sc + 15 < len {
            AppV { markdown_scroll: (sc + 15) as usize, ..v }
        } else {
            AppV { markdown_scroll: if len >= 10 { (len - 10) as usize } else { 0 }, ..v }
        }
    } else {
        v
    }
}

/// `v` with an error status cleared (any key press clears errors).
pub open spec fn clear_error(v: AppV) -> AppV {
    match v.status {
        Some(st) => if st.1 == StatusKind::Error {
            AppV { status: None, ..v }
        } else {
            v
        },
        None => v,
    }
}

/// The state after a key press, and whether the picker should quit.
pub open spec fn spec_handle_key(v: AppV, code: KeyCode, mods: KeyModifiers, present: bool) -> (AppV, bool) {
    let v1 = clear_error(v);
    if mods.control && code == KeyCode::Char('c') {
        (v1, true)
    } else if v1.show_help {
        (spec_help_key(v1, code), false)
    } else if v1.show_markdown is Some {
        (spec_doc_key(v1, code), false)
    } else if code == KeyCode::Char('q') || code == KeyCode::Esc {
        (v1, true)
    } else {
        (spec_main_key(v1, code, present), v1.should_quit)
    }
}

/// What a key press needs to stay within the picker's fixed-width arithmetic:
/// the list position, the timeout and cycle steps, and the document scroll.
pub open spec fn key_ok(v: AppV, code: KeyCode, mods: KeyModifiers) -> bool {
    let ctrl_c = mods.control && code == KeyCode::Char('c');
    let main = !ctrl_c && !v.show_help && v.show_markdown is None;
    let doc = !ctrl_c && !v.show_help && v.show_markdown is Some;
    let prefs = main && v.focused == FocusedSection::GlobalPrefs;
    &&& (main && code == KeyCode::Up ==> move_ok(v, -1i32))
    &&& (main && code == KeyCode::Down ==> move_ok(v, 1i32))
    &&& (prefs && v.global_field == GlobalField::Timeout && code == KeyCode::Left ==> step_ok(
        v.global.timeout,
        -1i32,
        60,
    ))
    &&& (prefs && v.global_field == GlobalField::Timeout && code == KeyCode::Right ==> step_ok(
        v.global.timeout,
        1i32,
        60,
    ))
    &&& (prefs && v.global_field == GlobalField::CycleTime && code == KeyCode::Left ==> step_ok(
        v.local.random_cycle_secs,
        -1i32,
        5,
    ))
    &&& (prefs && v.global_field == GlobalField::CycleTime && code == KeyCode::Right ==> step_ok(
        v.local.random_cycle_secs,
        1i32,
        5,
    ))
    &&& (doc && code == KeyCode::Down ==> v.markdown_scroll + 10 <= usize::MAX)
    &&& (doc && code == KeyCode::PageDown ==> v.markdown_scroll + 15 <= usize::MAX)
}

fn doc_name_of(n: u8) -> (s: &'static str)
    requires
        1 <= n <= 7,
    ensures
        s@ == doc_name(n),
{
    if n == 1 {
        "README.md"
    } else if n == 2 {
        "SUPPORT.md"
    } else if n == 3 {
        "LICENSE.md"
    } else if n == 4 {
        "COPYRIGHT.md"
    } else if n == 5 {
        "PRIVACY.md"
    } else if n == 6 {
        "SECURITY.md"
    } else {
        "CONTRIBUTING.md"
    }
}

fn is_doc_key_exec(code: KeyCode) -> (b: bool)
    ensures
        b == is_doc_key(code),
{
    match code {
        KeyCode::F(n) => 1 <= n && n <= 7,
        _ => false,
    }
}

impl App {
    fn request_doc(&mut self, code: KeyCode)
        requires
            is_doc_key(code),
        ensures
            final(self)@ == spec_request_doc(old(self)@, code),
    {
        let n = match code {
            KeyCode::F(n) => n,
            _ => 0,
        };
        let name = doc_name_of(n);
        let mut a = String::new();
        push_str(&mut a, name);
        let mut b = String::new();
        push_str(&mut b, name);
        self.request = Some(Request::LoadDocument { name: a });
        self.awaiting = Some(Step::Document { name: b });
    }

    fn on_left(&mut self)
        requires
            old(self).focused == FocusedSection::GlobalPrefs && old(self).global_field == GlobalField::Timeout
                ==> step_ok(old(self).global.timeout, -1i32, 60),
            old(self).focused == FocusedSection::GlobalPrefs && old(self).global_field == GlobalField::CycleTime
                ==> step_ok(old(self).local.random_cycle_secs, -1i32, 5),
        ensures
            final(self)@ == spec_on_left(old(self)@),
    {
        if self.focused == FocusedSection::GlobalPrefs {
            match self.global_field {
                GlobalField::Timeout => self.adjust_timeout(-1),
                GlobalField::CycleTime => self.adjust_cycle_time(-1),
                _ => {},
            }
        }
    }

    fn on_right(&mut self)
        requires
            old(self).focused == FocusedSection::GlobalPrefs && old(self).global_field == GlobalField::Timeout
                ==> step_ok(old(self).global.timeout, 1i32, 60),
            old(self).focused == FocusedSection::GlobalPrefs && old(self).global_field == GlobalField::CycleTime
                ==> step_ok(old(self).local.random_cycle_secs, 1i32, 5),
        ensures
            final(self)@ == spec_on_right(old(self)@),
    {
        if self.focused == FocusedSection::GlobalPrefs {
            match self.global_field {
                GlobalField::Timeout => self.adjust_timeout(1),
                GlobalField::CycleTime => self.adjust_cycle_time(1),
                _ => {},
            }
        }
    }

    fn on_activate(&mut self, present: bool)
        ensures
            final(self)@ == spec_on_activate(old(self)@, present),
    {
        match self.focused {
            FocusedSection::GlobalPrefs => match self.global_field {
                GlobalField::Active => self.toggle_active(),
                GlobalField::PreventSleep => self.toggle_prevent_sleep(),
                GlobalField::HideStock => self.toggle_hide_stock(),
                _ => {},
            },
            FocusedSection::SaverList => self.toggle_and_apply_highlighted(present),
        }
    }

    fn help_key(&mut self, code: KeyCode)
        ensures
            final(self)@ == spec_help_key(old(self)@, code),
    {
        reveal(spec_help_key);
        match code {
            KeyCode::Char('q') | KeyCode::Char('Q') | KeyCode::Esc | KeyCode::Char('h') | KeyCode::Char(
                'H',
            ) => {
                self.show_help = false;
                let mut t = String::new();
                push_str(&mut t, "Help overlay closed.");
                self.status = Some(info_msg(t));
            },
            _ => {
                if is_doc_key_exec(code) {
                    self.show_help = false;
                    self.request_doc(code);
                }
            },
        }
    }

    fn doc_key(&mut self, code: KeyCode)
        requires
            code == KeyCode::Down ==> old(self).markdown_scroll + 10 <= usize::MAX,
            code == KeyCode::PageDown ==> old(self).markdown_scroll + 15 <= usize::MAX,
        ensures
            final(self)@ == spec_doc_key(old(self)@, code),
    {
        reveal(spec_doc_key);
        let len = self.markdown_lines.len();
        match code {
            KeyCode::Char('q') | KeyCode::Char('Q') | KeyCode::Esc => {
                self.show_markdown = None;
            },
            KeyCode::Up => {
                self.markdown_scroll = if self.markdown_scroll >= 1 {
                    self.markdown_scroll - 1
                } else {
                    0
                };
            },
            KeyCode::Down => {
                if self.markdown_scroll + 10 < len {
                    self.markdown_scroll = self.markdown_scroll + 1;
                }
            },
            KeyCode::PageUp => {
                self.markdown_scroll = if self.markdown_scroll >= 15 {
                    self.markdown_scroll - 15
                } else {
                    0
                };
            },
            KeyCode::PageDown => {
                if self.markdown_scroll + 15 < len {
                    self.markdown_scroll = self.markdown_scroll + 15;
                } else {
                    self.markdown_scroll = if len >= 10 {
                        len - 10
                    } else {
                        0
                    };
                }
            },
            _ => {
                if is_doc_key_exec(code) {
                    self.request_doc(code);
                }
            },
        }
    }

    fn main_key(&mut self, code: KeyCode, present: bool)
        requires
            code == KeyCode::Up ==> move_ok(old(self)@, -1i32),
            code == KeyCode::Down ==> move_ok(old(self)@, 1i32),
            code == KeyCode::Left ==> (old(self).focused == FocusedSection::GlobalPrefs && old(self).global_field
                == GlobalField::Timeout ==> step_ok(old(self).global.timeout, -1i32, 60)),
            code == KeyCode::Left ==> (old(self).focused == FocusedSection::GlobalPrefs && old(self).global_field
                == GlobalField::CycleTime ==> step_ok(old(self).local.random_cycle_secs, -1i32, 5)),
            code == KeyCode::Right ==> (old(self).focused == FocusedSection::GlobalPrefs && old(self).global_field
                == GlobalField::Timeout ==> step_ok(old(self).global.timeout, 1i32, 60)),
            code == KeyCode::Right ==> (old(self).focused == FocusedSection::GlobalPrefs && old(self).global_field
                == GlobalField::CycleTime ==> step_ok(old(self).local.random_cycle_secs, 1i32, 5)),
        ensures
            final(self)@ == spec_main_key(old(self)@, code, present),
            final(self).should_quit == old(self).should_quit,
    {
        reveal(spec_main_key);
        match code {
            KeyCode::Char(c) => {
                if c == 'r' || c == 'R' {
                    self.refresh_screensavers();
                } else if c == ' ' {
                    self.on_activate(present);
                } else if c == 'p' || c == 'P' || c == 't' || c == 'T' {
                    self.preview_highlighted(present);
                } else if c == 'c' || c == 'C' {
                    self.configure_highlighted(present);
                } else if c == 'd' || c == 'D' {
                    if self.focused == FocusedSection::SaverList {
                        self.download_or_delete_highlighted(present);
                    }
                } else if c == 'h' || c == 'H' {
                    self.show_help = true;
                    let mut t = String::new();
                    push_str(&mut t, "Help overlay active. Press ESC/q to close.");
                    self.status = Some(info_msg(t));
                }
            },
            KeyCode::Tab | KeyCode::BackTab => self.cycle_focus(),
            KeyCode::Up => self.move_focus(-1),
            KeyCode::Down => self.move_focus(1),
            KeyCode::Left => self.on_left(),
            KeyCode::Right => self.on_right(),
            KeyCode::Enter => self.on_activate(present),
            KeyCode::F(_) => {
                if is_doc_key_exec(code) {
                    self.request_doc(code);
                }
            },
            _ => {},
        }
    }

    /// Handle a single key event; `present` tells whether the highlighted
    /// screensaver's file is on disk.  Returns `true` if the app should quit.
    pub fn handle_key(&mut self, code: KeyCode, modifiers: KeyModifiers, present: bool) -> (quit: bool)
        requires
            key_ok(old(self)@, code, modifiers),
        ensures
            (final(self)@, quit) == spec_handle_key(old(self)@, code, modifiers, present),
    {
        // Clear any error status on any user keypress. Info status remains subject to the timer.
        let is_error = match &self.status {
            Some(msg) => msg.kind == StatusKind::Error,
            None => false,
        };
        if is_error {
            self.status = None;
        }
        if modifiers.contains_control() && code == KeyCode::Char('c') {
            return true;
        }
        if self.show_help {
            self.help_key(code);
            return false;
        }
        if self.show_markdown.is_some() {
            self.doc_key(code);
            return false;
        }
        match code {
            KeyCode::Char('q') | KeyCode::Esc => {
                return true;
            },
            _ => {},
        }
        self.main_key(code, present);
        self.should_quit
    }
}

} // verus!
