//! The styled content of the picker's panes: the preference fields and the
//! rows of the screensaver list.  The front end only lays them out.
use vstd::prelude::*;
use crate::app::{App, AppV, FocusedSection, GlobalField};
use crate::model::{decimal, decimal_of, list_row, spec_list_row, strs_view, ScreensaverV};
use crate::styled::{fg, fg_bold, lines_view, plain, push_line, span, LineV, StyledLine, TextStyle};
use crate::text::chars_of;
use crate::theme::{Color, TuiTheme};

verus! {

/// The marker in front of the focused preference field.
pub open spec fn focus_marker() -> Seq<char> {
    seq![' ', '\u{25b6}', ' ']
}

/// One preference line: the focus marker (or blanks), the label, a space and the value.
pub open spec fn pref_line(focused: bool, label: Seq<char>, value: Seq<char>, value_color: Color, theme: TuiTheme) -> LineV {
    seq![
        (if focused { focus_marker() } else { seq![' ', ' ', ' '] }, fg(theme.accent_primary)),
        (label, if focused { fg_bold(theme.accent_secondary) } else { fg(theme.text_main) }),
        (seq![' '], plain()),
        (value, fg(value_color)),
    ]
}

/// The colour of an on/off preference value.
pub open spec fn switch_color(on: bool, theme: TuiTheme) -> Color {
    if on {
        theme.accent_secondary
    } else {
        theme.text_dim
    }
}

/// The lines of the preference pane: active, timeout (in whole minutes), sleep
/// prevention, cycle time and the stock filter, the focused field marked.
pub open spec fn spec_pref_lines(v: AppV) -> Seq<LineV> {
    let on = v.focused == FocusedSection::GlobalPrefs;
    let t = v.theme;
    seq![
        pref_line(
            on && v.global_field == GlobalField::Active,
            "Active:        "@,
            if v.global.active { "ACTIVE"@ } else { "DISABLED"@ },
            switch_color(v.global.active, t),
            t,
        ),
        pref_line(
            on && v.global_field == GlobalField::Timeout,
            "Timeout:       "@,
            decimal((v.global.timeout / 60) as nat) + " minutes"@,
            t.accent_primary,
            t,
        ),
        pref_line(
            on && v.global_field == GlobalField::PreventSleep,
            "Prevent sleep: "@,
            if v.local.prevent_sleep { "ACTIVE (SYSTEM AWAKE)"@ } else { "DISABLED (NORMAL)"@ },
            switch_color(v.local.prevent_sleep, t),
            t,
        ),
        pref_line(
            on && v.global_field == GlobalField::CycleTime,
            "Cycle time:    "@,
            decimal(v.local.random_cycle_secs as nat) + " seconds"@,
            t.accent_primary,
            t,
        ),
        pref_line(
            on && v.global_field == GlobalField::HideStock,
            "Hide stock:    "@,
            if v.local.hide_stock { "YES"@ } else { "NO"@ },
            switch_color(v.local.hide_stock, t),
            t,
        ),
    ]
}

fn pref(focused: bool, label: &str, value: &[char], value_color: Color, theme: &TuiTheme) -> (l: StyledLine)
    ensures
        l@ == pref_line(focused, label@, value@, value_color, *theme),
{
    let marker: Vec<char> = if focused {
        vec![' ', '\u{25b6}', ' ']
    } else {
        vec![' ', ' ', ' ']
    };
    let label_style = if focused {
        TextStyle { fg: Some(theme.accent_secondary), bold: true }
    } else {
        TextStyle { fg: Some(theme.text_main), bold: false }
    };
    let space: Vec<char> = vec![' '];
    let mut spans = Vec::new();
    spans.push(span(marker.as_slice(), TextStyle { fg: Some(theme.accent_primary), bold: false }));
    spans.push(span(chars_of(label).as_slice(), label_style));
    spans.push(span(space.as_slice(), TextStyle { fg: None, bold: false }));
    spans.push(span(value, TextStyle { fg: Some(value_color), bold: false }));
    let l = StyledLine { spans };
    assert(marker@ =~= (if focused { focus_marker() } else { seq![' ', ' ', ' '] }));
    assert(space@ =~= seq![' ']);
    assert(l@ =~= pref_line(focused, label@, value@, value_color, *theme));
    l
}

fn with_suffix(mut v: Vec<char>, suffix: &str) -> (r: Vec<char>)
    ensures
        r@ == v@ + suffix@,
{
    let s = chars_of(suffix);
    let ghost v0 = v@;
    let mut i: usize = 0;
    while i < s.len()
        invariant
            i <= s@.len(),
            s@ == suffix@,
            v@ == v0 + s@.take(i as int),
        decreases s@.len() - i,
    {
        v.push(s[i]);
        i = i + 1;
        assert(v0 + s@.take(i as int) == (v0 + s@.take(i - 1)).push(s@[i - 1]));
    }
    assert(s@.take(s@.len() as int) == s@);
    v
}

/// Whether `p` is among the selected paths.
pub open spec fn is_selected(sel: Seq<Seq<char>>, p: Seq<char>) -> bool {
    sel.contains(p)
}

/// The rows of the screensaver list, one per screensaver, given which files are on disk.
pub open spec fn spec_list_rows(v: AppV, present: Seq<bool>) -> Seq<LineV> {
    Seq::new(
        v.screensavers.len(),
        |i: int|
            spec_list_row(
                v.screensavers[i],
                is_selected(v.local.selected_paths, v.screensavers[i].path),
                present[i],
                v.theme,
            ),
    )
}

fn contains_path(sel: &Vec<String>, p: &String) -> (b: bool)
    ensures
        b == is_selected(strs_view(sel@), p@),
{
    let pc = chars_of(p.as_str());
    let mut i: usize = 0;
    while i < sel.len()
        invariant
            i <= sel@.len(),
            pc@ == p@,
            forall|j: int| 0 <= j < i ==> strs_view(sel@)[j] != p@,
        decreases sel@.len() - i,
    {
        let c = chars_of(sel[i].as_str());
        if c.len() == pc.len() {
            let mut k: usize = 0;
            let mut same = true;
            while k < c.len()
                invariant
                    c@.len() == pc@.len(),
                    k <= c@.len(),
                    same == (forall|j: int| 0 <= j < k ==> c@[j] == pc@[j]),
                decreases c@.len() - k,
            {
                if c[k] != pc[k] {
                    same = false;
                }
                k = k + 1;
            }
            if same {
                assert(c@ =~= pc@);
                assert(strs_view(sel@)[i as int] == p@);
                return true;
            }
        }
        i = i + 1;
    }
    proof {
        if strs_view(sel@).contains(p@) {
            let k = choose|k: int| 0 <= k < strs_view(sel@).len() && strs_view(sel@)[k] == p@;
            assert(strs_view(sel@)[k] != p@);
        }
    }
    false
}

impl App {
    /// The lines of the preference pane.
    pub fn pref_lines(&self) -> (r: Vec<StyledLine>)
        ensures
            lines_view(r@) == spec_pref_lines(self@),
    {
        let on = match self.focused {
            FocusedSection::GlobalPrefs => true,
            FocusedSection::SaverList => false,
        };
        let t = &self.theme;
        let mut out: Vec<StyledLine> = Vec::new();

        let act = if self.global.active {
            chars_of("ACTIVE")
        } else {
            chars_of("DISABLED")
        };
        let c = if self.global.active { t.accent_secondary } else { t.text_dim };
        push_line(&mut out, pref(on && self.global_field == GlobalField::Active, "Active:        ", act.as_slice(), c, t));

        let minutes = with_suffix(decimal_of((self.global.timeout / 60) as usize), " minutes");
        push_line(&mut out, pref(on && self.global_field == GlobalField::Timeout, "Timeout:       ", minutes.as_slice(), t.accent_primary, t));

        let sleep = if self.local.prevent_sleep {
            chars_of("ACTIVE (SYSTEM AWAKE)")
        } else {
            chars_of("DISABLED (NORMAL)")
        };
        let c = if self.local.prevent_sleep { t.accent_secondary } else { t.text_dim };
        push_line(&mut out, pref(on && self.global_field == GlobalField::PreventSleep, "Prevent sleep: ", sleep.as_slice(), c, t));

        let secs = with_suffix(decimal_of(self.local.random_cycle_secs as usize), " seconds");
        push_line(&mut out, pref(on && self.global_field == GlobalField::CycleTime, "Cycle time:    ", secs.as_slice(), t.accent_primary, t));

        let hide = if self.local.hide_stock {
            chars_of("YES")
        } else {
            chars_of("NO")
        };
        let c = if self.local.hide_stock { t.accent_secondary } else { t.text_dim };
        push_line(&mut out, pref(on && self.global_field == GlobalField::HideStock, "Hide stock:    ", hide.as_slice(), c, t));

        assert(lines_view(out@) =~= spec_pref_lines(self@));
        out
    }

    /// The rows of the screensaver list; `present[i]` tells whether the file of
    /// the `i`-th screensaver is on disk.
    pub fn list_rows(&self, present: &Vec<bool>) -> (r: Vec<StyledLine>)
        requires
            present@.len() == self.screensavers@.len(),
        ensures
            lines_view(r@) == spec_list_rows(self@, present@),
    {
        let mut out: Vec<StyledLine> = Vec::new();
        let mut i: usize = 0;
        while i < self.screensavers.len()
            invariant
                present@.len() == self.screensavers@.len(),
                i <= self.screensavers@.len(),
                lines_view(out@) == spec_list_rows(self@, present@).take(i as int),
            decreases self.screensavers@.len() - i,
        {
            let s = &self.screensavers[i];
            let checked = contains_path(&self.local.selected_paths, &s.path);
            let row = list_row(s, checked, present[i], &self.theme);
            push_line(&mut out, row);
            i = i + 1;
            assert(lines_view(out@) =~= spec_list_rows(self@, present@).take(i as int));
        }
        assert(spec_list_rows(self@, present@).take(self.screensavers@.len() as int) =~= spec_list_rows(self@, present@));
        out
    }
}

} // verus!
