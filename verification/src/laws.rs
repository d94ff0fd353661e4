//! What holds of the picker's commands taken together: what a second call
//! undoes, what every call keeps, and the shape of the shown list.
use vstd::prelude::*;
use crate::actions::{
    next_cycle_time, next_timeout, non_stock, spec_adjust_cycle_time, spec_adjust_timeout,
    spec_toggle_active, spec_toggle_hide_stock, spec_toggle_prevent_sleep, spec_toggle_selection_core,
};
use crate::app::{
    field_at, field_index, filtered, first_at, first_where, lemma_first_where, spec_current,
    spec_cycle_focus, spec_move_focus, spec_move_highlight, spec_resolve, visible_upto, AppV,
    FocusedSection, highlight_pos, KeyCode, KeyModifiers,
};
use crate::catalog::{has_entry_named, with_new_entries};
use crate::flow::{spec_finish_basic, spec_resume};
use crate::app::{ReplyV, StatusKind, StepV};
use crate::actions::{needs_download, spec_download_or_delete, spec_apply, spec_apply_core, spec_configure, spec_preview, spec_toggle_selection};
use crate::cycle::{candidates_of, is_self_path, names_uninstaller};
use crate::registry::{Platform, RegistryEntryV};
use crate::text::ascii_lower_seq;
use crate::keys::{clear_error, spec_handle_key, spec_main_key};
use crate::model::{is_stock, lower, ScreensaverV};
use crate::catalog::{additions, key_of_file};
use crate::registry::spec_download_url;
use crate::app::{HostV, RequestV};
use crate::markdown::{markdown_lines, md_scan, md_step};
use crate::styled::{LineV, TextStyle};
use crate::text::{has_prefix, last_segment, lines_of, trim};
use crate::theme::TuiTheme;

verus! {

/// Going `d` steps forward and then `d` steps back, modulo `n`, returns to `i`.
proof fn lemma_mod_step_back(i: int, d: int, n: int)
    requires
        0 < n,
        0 <= i < n,
    ensures
        (((i + d) % n) - d) % n == i,
{
    let q = (i + d) / n;
    vstd::arithmetic::div_mod::lemma_fundamental_div_mod(i + d, n);
    assert(((i + d) % n) - d == n * (-q) + i) by (nonlinear_arith)
        requires
            i + d == n * q + (i + d) % n,
    ;
    vstd::arithmetic::div_mod::lemma_mod_multiples_vanish(-q, i, n);
    vstd::arithmetic::div_mod::lemma_small_mod(i as nat, n as nat);
}

/// Switching the focus twice returns it to where it was; only the status line differs.
pub proof fn law_cycle_focus_twice(v: AppV)
    ensures
        spec_cycle_focus(spec_cycle_focus(v)).focused == v.focused,
        (AppV { status: v.status, ..spec_cycle_focus(spec_cycle_focus(v)) }) == v,
{
}

/// Toggling "active" twice restores the global settings.
pub proof fn law_toggle_active_twice(v: AppV)
    ensures
        spec_toggle_active(spec_toggle_active(v)).global == v.global,
{
}

/// Toggling sleep prevention twice restores it and leaves the selection and
/// the global settings alone.
pub proof fn law_toggle_prevent_sleep_twice(v: AppV)
    ensures
        spec_toggle_prevent_sleep(spec_toggle_prevent_sleep(v)).local.prevent_sleep == v.local.prevent_sleep,
        spec_toggle_prevent_sleep(spec_toggle_prevent_sleep(v)).local.selected_paths == v.local.selected_paths,
        spec_toggle_prevent_sleep(spec_toggle_prevent_sleep(v)).global == v.global,
{
}

/// The timeout always stays between one minute and two hours, and the cycle
/// time between five seconds and ten minutes, whatever the step.
pub proof fn law_adjust_bounds(t: u32, delta: i32)
    ensures
        60 <= next_timeout(t, delta) <= 7200,
        5 <= next_cycle_time(t, delta) <= 600,
{
}

/// Within its range, one step up and one step down restores the timeout and the cycle time.
pub proof fn law_adjust_step_undone(v: AppV)
    ensures
        60 <= v.global.timeout <= 7140 ==> spec_adjust_timeout(spec_adjust_timeout(v, 1), -1i32).global
            == v.global,
        5 <= v.local.random_cycle_secs <= 595 ==> spec_adjust_cycle_time(
            spec_adjust_cycle_time(v, 1),
            -1i32,
        ).local == v.local,
{
}

/// Moving through the preference fields by `d` and back by `-d` restores the state.
pub proof fn law_field_move_undone(v: AppV, d: i32)
    requires
        v.focused == FocusedSection::GlobalPrefs,
        d > i32::MIN,
    ensures
        spec_move_focus(spec_move_focus(v, d), (-d) as i32) == v,
{
    let i = field_index(v.global_field);
    lemma_mod_step_back(i, d as int, 5);
    let j = (i + d) % 5;
    assert(0 <= j < 5);
    assert(field_index(field_at(j)) == j);
    assert(field_at(i) == v.global_field);
}

/// The shown list: indices of the screensavers in increasing order, each
/// within the list, and exactly those that are not hidden.
pub proof fn law_filtered_shape(ss: Seq<ScreensaverV>, hide: bool, n: nat)
    requires
        n <= ss.len(),
        n <= usize::MAX,
    ensures
        visible_upto(ss, hide, n).len() <= n,
        forall|j: int, k: int|
            0 <= j < k < visible_upto(ss, hide, n).len() ==> #[trigger] visible_upto(ss, hide, n)[j]
                < #[trigger] visible_upto(ss, hide, n)[k],
        forall|i: usize|
            #[trigger] visible_upto(ss, hide, n).contains(i) <==> (i < n && (!hide || !is_stock(
                ss[i as int].path,
            ))),
    decreases n,
{
    if n > 0 {
        law_filtered_shape(ss, hide, (n - 1) as nat);
        let r = visible_upto(ss, hide, (n - 1) as nat);
        let t = visible_upto(ss, hide, n);
        let shown = !hide || !is_stock(ss[n - 1].path);
        assert forall|j: int, k: int| 0 <= j < k < t.len() implies #[trigger] t[j] < #[trigger] t[k] by {
            if shown {
                assert(t == r.push((n - 1) as usize));
                if k < r.len() {
                    assert(t[j] == r[j] && t[k] == r[k]);
                } else {
                    assert(r.contains(r[j]));
                    assert(t[j] == r[j]);
                }
            } else {
                assert(t[j] == r[j] && t[k] == r[k]);
            }
        }
        assert forall|i: usize| #[trigger] t.contains(i) <==> (i < n && (!hide || !is_stock(ss[i as int].path))) by {
            if shown {
                assert(t == r.push((n - 1) as usize));
                if t.contains(i) && i != n - 1 {
                    let k = choose|k: int| 0 <= k < t.len() && t[k] == i;
                    assert(k < r.len());
                    assert(r[k] == i);
                    assert(r.contains(i));
                }
                if r.contains(i) {
                    let k = choose|k: int| 0 <= k < r.len() && r[k] == i;
                    assert(t[k] == i);
                }
                if i == n - 1 {
                    assert(t[r.len() as int] == i);
                }
            }
        }
    }
}

/// In a strictly increasing list, the first position of the element at `k` is `k`.
proof fn lemma_first_at_increasing(s: Seq<usize>, k: int)
    requires
        0 <= k < s.len(),
        forall|a: int, b: int| 0 <= a < b < s.len() ==> #[trigger] s[a] < #[trigger] s[b],
    ensures
        first_at(s, s[k]) == k,
{
    let p = |a: usize| a == s[k];
    assert forall|j: int| 0 <= j < k implies !p(#[trigger] s[j]) by {
        assert(s[j] < s[k]);
    }
    lemma_first_where(s, p, k);
}

/// The position of the highlighted screensaver among the shown ones, known
/// to be there when `first_at` finds it.
proof fn lemma_shown_position(v: AppV)
    requires
        v.screensavers.len() <= usize::MAX,
        first_at(filtered(v), v.highlighted) >= 0,
    ensures
        0 <= highlight_pos(v) < filtered(v).len(),
        filtered(v)[highlight_pos(v)] == v.highlighted,
{
    let idx = filtered(v);
    lemma_first_where_props(idx, |a: usize| a == v.highlighted);
}

/// When the highlight is on a shown screensaver and moving it `d` places stays
/// within the shown list, moving back by `-d` returns it there.
pub proof fn law_highlight_move_undone(v: AppV, d: i32)
    requires
        d > i32::MIN,
        v.screensavers.len() <= usize::MAX,
        first_at(filtered(v), v.highlighted) >= 0,
        0 <= first_at(filtered(v), v.highlighted) + d < filtered(v).len(),
    ensures
        spec_move_highlight(spec_move_highlight(v, d), (-d) as i32) == v,
{
    let idx = filtered(v);
    law_filtered_shape(v.screensavers, v.local.hide_stock, v.screensavers.len());
    lemma_shown_position(v);
    let p = highlight_pos(v);
    let w = spec_move_highlight(v, d);
    let q = p + d;
    assert(filtered(w) == idx);
    lemma_first_at_increasing(idx, q);
    assert(highlight_pos(w) == q);
}

/// The highlight stops at the ends of the shown list: moving on from the last
/// shown screensaver, or back from the first, keeps it where it is.
pub proof fn law_highlight_stops_at_ends(v: AppV, d: i32)
    requires
        v.screensavers.len() <= usize::MAX,
        first_at(filtered(v), v.highlighted) >= 0,
    ensures
        first_at(filtered(v), v.highlighted) == filtered(v).len() - 1 && d >= 0 ==> spec_move_highlight(v, d) == v,
        first_at(filtered(v), v.highlighted) == 0 && d <= 0 ==> spec_move_highlight(v, d) == v,
        0 <= spec_move_highlight(v, d).highlighted < v.screensavers.len(),
{
    law_filtered_shape(v.screensavers, v.local.hide_stock, v.screensavers.len());
    lemma_shown_position(v);
    let idx = filtered(v);
    let k = crate::app::clamp_pos(highlight_pos(v) + d, idx.len() - 1);
    assert(idx.contains(idx[k]));
}

/// Resolving the highlight twice is resolving it once, and afterwards the
/// highlight is on a shown screensaver whenever one is shown.
pub proof fn law_resolve_idempotent(v: AppV)
    ensures
        spec_resolve(spec_resolve(v)) == spec_resolve(v),
        filtered(v).len() > 0 ==> first_at(filtered(spec_resolve(v)), spec_resolve(v).highlighted) >= 0,
{
    let w = spec_resolve(v);
    let idx = filtered(v);
    assert(filtered(w) == idx);
    if idx.len() > 0 && first_at(idx, v.highlighted) < 0 {
        lemma_first_where(idx, |a: usize| a == idx[0], 0);
    }
}

/// `first_where` is -1 exactly when no element satisfies `p`, and otherwise the
/// position of the first element that does.
proof fn lemma_first_where_props<A>(s: Seq<A>, p: spec_fn(A) -> bool)
    ensures
        first_where(s, p) == -1 <==> (forall|k: int| 0 <= k < s.len() ==> !p(#[trigger] s[k])),
        first_where(s, p) != -1 ==> {
            &&& 0 <= first_where(s, p) < s.len()
            &&& p(s[first_where(s, p)])
            &&& forall|j: int| 0 <= j < first_where(s, p) ==> !p(#[trigger] s[j])
        },
{
    if exists|k: int| 0 <= k < s.len() && p(s[k]) {
        let k = choose|k: int| 0 <= k < s.len() && p(s[k]);
        lemma_first_found(s, p, k);
    } else {
        lemma_first_where(s, p, -1);
    }
}

/// When the element at `k` satisfies `p`, `first_where` finds one at or before `k`.
proof fn lemma_first_found<A>(s: Seq<A>, p: spec_fn(A) -> bool, k: int)
    requires
        0 <= k < s.len(),
        p(s[k]),
    ensures
        0 <= first_where(s, p) <= k,
        p(s[first_where(s, p)]),
        forall|j: int| 0 <= j < first_where(s, p) ==> !p(#[trigger] s[j]),
    decreases k,
{
    if exists|j: int| 0 <= j < k && p(s[j]) {
        let j = choose|j: int| 0 <= j < k && p(s[j]);
        lemma_first_found(s, p, j);
    } else {
        lemma_first_where(s, p, k);
    }
}

/// Whether no two elements of `s` are equal.
pub open spec fn distinct<A>(s: Seq<A>) -> bool {
    forall|i: int, j: int| 0 <= i < j < s.len() ==> s[i] != s[j]
}

/// Putting a screensaver that is not selected into the cycle and toggling it
/// again restores the selection.
pub proof fn law_selection_toggle_twice(v: AppV, then_apply: bool)
    requires
        spec_current(v) is Some,
        !v.local.selected_paths.contains(spec_current(v)->0.path),
    ensures
        spec_toggle_selection_core(spec_toggle_selection_core(v, then_apply), then_apply).local.selected_paths
            == v.local.selected_paths,
{
    let sel = v.local.selected_paths;
    let path = spec_current(v)->0.path;
    let w = spec_toggle_selection_core(v, then_apply);
    lemma_first_where_props(sel, |a: Seq<char>| a == path);
    if first_at(sel, path) != -1 {
        assert(sel.contains(sel[first_at(sel, path)]));
    }
    assert(w.local.selected_paths == sel.push(path));
    assert(spec_current(w) == spec_current(v));
    let sel2 = sel.push(path);
    assert forall|j: int| 0 <= j < sel.len() implies !(|a: Seq<char>| a == path)(#[trigger] sel2[j]) by {
        assert(sel2[j] == sel[j]);
        if sel[j] == path {
            assert(sel.contains(path));
        }
    }
    lemma_first_where(sel2, |a: Seq<char>| a == path, sel.len() as int);
    assert(sel2.remove(sel.len() as int) =~= sel);
}

/// Toggling the highlighted screensaver's place in the cycle keeps the
/// selection free of repeated paths.
pub proof fn law_selection_stays_distinct(v: AppV, then_apply: bool)
    requires
        spec_current(v) is Some,
        distinct(v.local.selected_paths),
    ensures
        distinct(spec_toggle_selection_core(v, then_apply).local.selected_paths),
{
    let sel = v.local.selected_paths;
    let path = spec_current(v)->0.path;
    let pred = |a: Seq<char>| a == path;
    lemma_first_where_props(sel, pred);
    let pos = first_at(sel, path);
    let out = spec_toggle_selection_core(v, then_apply).local.selected_paths;
    if pos >= 0 {
        let r = sel.remove(pos);
        assert(out == r);
        sel.remove_ensures(pos);
        assert forall|i: int, j: int| 0 <= i < j < r.len() implies r[i] != r[j] by {
            let a = if i < pos { i } else { i + 1 };
            let b = if j < pos { j } else { j + 1 };
            assert(r[i] == sel[a] && r[j] == sel[b]);
        }
    } else {
        let r = sel.push(path);
        assert(out == r);
        assert forall|i: int, j: int| 0 <= i < j < r.len() implies r[i] != r[j] by {
            if j == sel.len() {
                assert(!pred(sel[i]));
            } else {
                assert(r[i] == sel[i] && r[j] == sel[j]);
            }
        }
    }
}

/// No stock screensaver is left among the paths `non_stock` keeps, and each
/// kept path was in the list.
pub proof fn lemma_non_stock(s: Seq<Seq<char>>)
    ensures
        non_stock(s).len() <= s.len(),
        forall|i: int| 0 <= i < non_stock(s).len() ==> !is_stock(#[trigger] non_stock(s)[i]) && s.contains(
            non_stock(s)[i],
        ),
    decreases s.len(),
{
    if s.len() > 0 {
        lemma_non_stock(s.drop_last());
        let r = non_stock(s.drop_last());
        assert forall|i: int| 0 <= i < non_stock(s).len() implies !is_stock(#[trigger] non_stock(s)[i])
            && s.contains(non_stock(s)[i]) by {
            if i < r.len() {
                assert(non_stock(s)[i] == r[i]);
                let k = choose|k: int| 0 <= k < s.drop_last().len() && s.drop_last()[k] == r[i];
                assert(s[k] == r[i]);
            } else {
                assert(non_stock(s)[i] == s.last());
                assert(s[s.len() - 1] == s.last());
            }
        }
    }
}

/// Hiding the stock screensavers also takes every stock screensaver out of
/// the cycle, and keeps only paths that were selected.
pub proof fn law_hide_stock_drops_stock(v: AppV)
    requires
        !v.local.hide_stock,
    ensures
        spec_toggle_hide_stock(v).local.hide_stock,
        forall|i: int|
            0 <= i < spec_toggle_hide_stock(v).local.selected_paths.len() ==> !is_stock(
                #[trigger] spec_toggle_hide_stock(v).local.selected_paths[i],
            ) && v.local.selected_paths.contains(spec_toggle_hide_stock(v).local.selected_paths[i]),
{
    lemma_non_stock(v.local.selected_paths);
}

/// Every screensaver of the random cycle is a selected path that exists, is
/// not the program itself and is no uninstaller; none is added.
pub proof fn law_cycle_candidates(paths: Seq<Seq<char>>, exists: Seq<bool>, exe: Option<Seq<char>>, platform: Platform)
    requires
        exists.len() == paths.len(),
    ensures
        candidates_of(paths, exists, exe, platform).len() <= paths.len(),
        forall|i: int|
            0 <= i < candidates_of(paths, exists, exe, platform).len() ==> {
                let c = #[trigger] candidates_of(paths, exists, exe, platform)[i];
                &&& paths.contains(c)
                &&& !is_self_path(c, exe, platform)
                &&& !names_uninstaller(c)
            },
    decreases paths.len(),
{
    if paths.len() > 0 {
        let n = paths.len() - 1;
        law_cycle_candidates(paths.take(n), exists.take(n), exe, platform);
        let r = candidates_of(paths.take(n), exists.take(n), exe, platform);
        let t = candidates_of(paths, exists, exe, platform);
        assert forall|i: int| 0 <= i < t.len() implies {
            let c = #[trigger] t[i];
            &&& paths.contains(c)
            &&& !is_self_path(c, exe, platform)
            &&& !names_uninstaller(c)
        } by {
            if i < r.len() {
                assert(t[i] == r[i]);
                let k = choose|k: int| 0 <= k < paths.take(n).len() && paths.take(n)[k] == r[i];
                assert(paths[k] == r[i]);
            } else {
                assert(t[i] == paths[n]);
            }
        }
    }
}

/// Ctrl+C always ends the picker; while the help overlay or a document is
/// open no other key does; in the main view `q` and Esc do.
pub proof fn law_quit_keys(v: AppV, code: KeyCode, mods: KeyModifiers, present: bool)
    ensures
        mods.control && code == KeyCode::Char('c') ==> spec_handle_key(v, code, mods, present).1,
        (v.show_help || v.show_markdown is Some) && !(mods.control && code == KeyCode::Char('c'))
            ==> !spec_handle_key(v, code, mods, present).1,
        !v.show_help && v.show_markdown is None && (code == KeyCode::Char('q') || code == KeyCode::Esc)
            ==> spec_handle_key(v, code, mods, present).1,
{
}

/// In the preference pane, Down and then Up come back to the same field.
pub proof fn law_prefs_down_up(v: AppV, present: bool)
    requires
        !v.show_help,
        v.show_markdown is None,
        v.focused == FocusedSection::GlobalPrefs,
    ensures
        ({
            let m = KeyModifiers { control: false };
            let w = spec_handle_key(v, KeyCode::Down, m, present).0;
            spec_handle_key(w, KeyCode::Up, m, present).0.global_field == v.global_field
        }),
{
    let m = KeyModifiers { control: false };
    let v1 = clear_error(v);
    assert(spec_main_key(v1, KeyCode::Down, present) == spec_move_focus(v1, 1i32)) by {
        reveal(spec_main_key);
    }
    let w = spec_handle_key(v, KeyCode::Down, m, present).0;
    assert(w == spec_move_focus(v1, 1i32));
    let w1 = clear_error(w);
    assert(spec_main_key(w1, KeyCode::Up, present) == spec_move_focus(w1, -1i32)) by {
        reveal(spec_main_key);
    }
    let i = field_index(v.global_field);
    lemma_mod_step_back(i, 1, 5);
    let j = (i + 1) % 5;
    assert(0 <= j < 5);
    assert(field_index(field_at(j)) == j);
    assert(field_at(i) == v.global_field);
}

/// Whether no two entries share a name, compared without regard to ASCII case.
pub open spec fn names_distinct(s: Seq<RegistryEntryV>) -> bool {
    forall|i: int, j: int| 0 <= i < j < s.len() ==> ascii_lower_seq(#[trigger] s[i].name) != ascii_lower_seq(#[trigger] s[j].name)
}

/// Gathering registry entries keeps what was gathered, in front, adds only
/// entries of the new source, and never repeats a name.
pub proof fn law_gathered_names_distinct(acc: Seq<RegistryEntryV>, more: Seq<RegistryEntryV>)
    requires
        names_distinct(acc),
    ensures
        names_distinct(with_new_entries(acc, more)),
        with_new_entries(acc, more).take(acc.len() as int) == acc,
        acc.len() <= with_new_entries(acc, more).len() <= acc.len() + more.len(),
        forall|k: int|
            acc.len() <= k < with_new_entries(acc, more).len() ==> more.contains(
                #[trigger] with_new_entries(acc, more)[k],
            ),
    decreases more.len(),
{
    if more.len() > 0 {
        let pre = more.drop_last();
        law_gathered_names_distinct(acc, pre);
        let a = with_new_entries(acc, pre);
        let e = more.last();
        assert forall|k: int| acc.len() <= k < a.len() implies more.contains(#[trigger] a[k]) by {
            assert(pre.contains(a[k]));
            let m = choose|m: int| 0 <= m < pre.len() && pre[m] == a[k];
            assert(more[m] == a[k]);
        }
        if !has_entry_named(a, e.name) {
            let b = a.push(e);
            assert(b.take(acc.len() as int) =~= a.take(acc.len() as int));
            assert forall|i: int, j: int| 0 <= i < j < b.len() implies ascii_lower_seq(#[trigger] b[i].name)
                != ascii_lower_seq(#[trigger] b[j].name) by {
                if j == a.len() {
                    assert(b[i] == a[i]);
                    if ascii_lower_seq(a[i].name) == ascii_lower_seq(e.name) {
                        assert(has_entry_named(a, e.name));
                    }
                } else {
                    assert(b[i] == a[i] && b[j] == a[j]);
                }
            }
            assert forall|k: int| acc.len() <= k < b.len() implies more.contains(#[trigger] b[k]) by {
                if k == a.len() {
                    assert(more[more.len() - 1] == e);
                } else {
                    assert(b[k] == a[k]);
                }
            }
        }
    }
}

/// Whether a failure of the work a step waits for is shown to the user.
pub open spec fn reports_failure(st: StepV) -> bool {
    ||| st is ActiveSaved
    ||| st is PreventSleepSaved
    ||| st is HideStockSaved
    ||| st is TimeoutSaved
    ||| st is CycleTimeSaved
    ||| st is ApplySaved
    ||| st is Previewed
    ||| st is Configured
    ||| st is Deleted
    ||| st is Document
}

/// The text in front of the reason of a failure reported for step `st`.
pub open spec fn failure_prefix(st: StepV) -> Seq<char> {
    match st {
        StepV::ApplySaved => "Failed to save: "@,
        StepV::Previewed => "Preview failed: "@,
        StepV::Configured { .. } => "Configure failed: "@,
        StepV::Deleted { .. } => "Failed to delete: "@,
        _ => "Save failed: "@,
    }
}

proof fn lemma_basic_failure(v0: AppV, st: StepV, e: Seq<char>)
    requires
        reports_failure(st),
        !(st is Document),
    ensures
        spec_finish_basic(v0, st, false, e) == (AppV {
            status: Some((failure_prefix(st) + e, StatusKind::Error)),
            ..v0
        }),
{
    reveal(spec_finish_basic);
}

/// A refused save, launch, delete or document load is answered with an error
/// status that ends with the reason given, and leaves no request outstanding.
pub proof fn law_failure_is_reported(v: AppV, e: Seq<char>, sorted: Seq<ScreensaverV>)
    requires
        v.awaiting is Some,
        reports_failure(v.awaiting->0),
    ensures
        ({
            let w = spec_resume(v, ReplyV::Failed(e), sorted);
            let msg = w.status->0;
            let text = msg.0;
            &&& w.request is None
            &&& w.awaiting is None
            &&& w.status is Some
            &&& msg.1 == StatusKind::Error
            &&& text.len() >= e.len()
            &&& text.subrange(text.len() - e.len(), text.len() as int) == e
        }),
{
    let st = v.awaiting->0;
    let v0 = crate::flow::settled(v);
    if let StepV::Document { name } = st {
        let t = "Failed to open "@ + name + ": "@ + e;
        assert(spec_resume(v, ReplyV::Failed(e), sorted).status == Some((t, StatusKind::Error)));
        assert(t.subrange(t.len() - e.len(), t.len() as int) =~= e);
    } else {
        assert(spec_resume(v, ReplyV::Failed(e), sorted) == spec_finish_basic(v0, st, false, e));
        lemma_basic_failure(v0, st, e);
        let t = failure_prefix(st) + e;
        assert(t.subrange(t.len() - e.len(), t.len() as int) =~= e);
    }
}

/// Applying the selection: with several screensavers selected the picker itself
/// (which runs the cycle) becomes the active screensaver, with one that one,
/// with none the screensaver is turned off; the global settings are then saved.
pub proof fn law_apply_reflects_selection(v: AppV)
    ensures
        ({
            let w = spec_apply_core(v);
            let sel = v.local.selected_paths;
            &&& w.global.active == (sel.len() > 0)
            &&& sel.len() > 1 ==> w.global.active_scr == v.host.self_path
            &&& sel.len() == 1 ==> w.global.active_scr == sel[0]
            &&& sel.len() == 0 ==> w.global.active_scr.len() == 0
            &&& w.global.timeout == v.global.timeout
            &&& w.local == v.local
            &&& w.request == Some(crate::app::RequestV::SaveGlobal)
        }),
{
}

/// Acting on a screensaver whose file is not on disk first starts its
/// download, remembering the action to run once it is there; `d` on it only
/// downloads it (nothing is deleted); the settings are left as they were.
pub proof fn law_missing_scene_downloads_first(v: AppV, present: bool)
    requires
        needs_download(v, present),
    ensures
        ({
            let s = spec_current(v)->0;
            let download = Some(crate::app::RequestV::StartDownload { name: s.name, url: s.download_url->0 });
            &&& spec_apply(v, present).request == download
            &&& spec_apply(v, present).pending_action == Some(crate::app::PendingAction::Apply)
            &&& spec_toggle_selection(v, present).request == download
            &&& spec_toggle_selection(v, present).pending_action == Some(crate::app::PendingAction::ToggleSelection)
            &&& spec_preview(v, present).request == download
            &&& spec_preview(v, present).pending_action == Some(crate::app::PendingAction::Preview)
            &&& spec_configure(v, present).request == download
            &&& spec_configure(v, present).pending_action == Some(crate::app::PendingAction::Configure)
            &&& spec_apply(v, present).global == v.global
            &&& spec_apply(v, present).local == v.local
            &&& spec_toggle_selection(v, present).local == v.local
            &&& spec_download_or_delete(v, present).request == download
            &&& spec_download_or_delete(v, present).pending_action is None
            &&& spec_download_or_delete(v, present).local == v.local
            &&& spec_download_or_delete(v, present).global == v.global
        }),
{
}

/// Every selected screensaver whose file exists, that is not the program itself
/// and whose file name does not mention "uninstall" takes part in the random
/// cycle (together with `law_cycle_candidates`: exactly those take part).
pub proof fn law_cycle_candidates_complete(
    paths: Seq<Seq<char>>,
    exists: Seq<bool>,
    exe: Option<Seq<char>>,
    platform: Platform,
)
    requires
        exists.len() == paths.len(),
    ensures
        forall|i: int|
            0 <= i < paths.len() && exists[i] && !is_self_path(paths[i], exe, platform) && !names_uninstaller(
                paths[i],
            ) ==> #[trigger] candidates_of(paths, exists, exe, platform).contains(paths[i]),
    decreases paths.len(),
{
    if paths.len() > 0 {
        let n = paths.len() - 1;
        let pp = paths.take(n);
        let ee = exists.take(n);
        law_cycle_candidates_complete(pp, ee, exe, platform);
        let r = candidates_of(pp, ee, exe, platform);
        let t = candidates_of(paths, exists, exe, platform);
        assert forall|i: int|
            0 <= i < paths.len() && exists[i] && !is_self_path(paths[i], exe, platform) && !names_uninstaller(
                paths[i],
            ) implies #[trigger] t.contains(paths[i]) by {
            if i < n {
                assert(pp[i] == paths[i] && ee[i] == exists[i]);
                assert(r.contains(pp[i]));
                let k = choose|k: int| 0 <= k < r.len() && r[k] == pp[i];
                if t == r {
                    assert(t[k] == paths[i]);
                } else {
                    assert(t == r.push(paths[n]));
                    assert(t[k] == paths[i]);
                }
            } else {
                assert(t == r.push(paths[n]));
                assert(t[r.len() as int] == paths[i]);
            }
        }
    }
}

/// Each screensaver the registry merge adds stands for one of the entries and
/// carries the download URL chosen for the host's platform and package tools
/// (the legacy `download_url` only when that choice gives none); and every
/// entry for which that choice gives a URL whose file is not installed is added
/// with that URL.
pub proof fn law_merge_urls(ss: Seq<ScreensaverV>, es: Seq<RegistryEntryV>, h: HostV)
    ensures
        forall|i: int|
            0 <= i < additions(ss, es, h).len() ==> exists|k: int|
                0 <= k < es.len() && (#[trigger] additions(ss, es, h)[i]).name == es[k].name
                    && additions(ss, es, h)[i].download_url is Some
                    && additions(ss, es, h)[i].download_url->0.len() > 0
                    && (spec_download_url(es[k], h.platform, h.tools) == additions(ss, es, h)[i].download_url
                    || (spec_download_url(es[k], h.platform, h.tools) is None
                    && es[k].download_url == additions(ss, es, h)[i].download_url)),
        forall|k: int|
            0 <= k < es.len() && (#[trigger] spec_download_url(es[k], h.platform, h.tools)) is Some && ({
                let u = spec_download_url(es[k], h.platform, h.tools)->0;
                let f = lower(last_segment(u));
                u.len() > 0 && f.len() > 0 && !ss.map_values(|s: ScreensaverV| key_of_file(s)).contains(f)
            }) ==> exists|i: int|
                0 <= i < additions(ss, es, h).len() && (#[trigger] additions(ss, es, h)[i]).name == es[k].name
                    && additions(ss, es, h)[i].download_url == spec_download_url(es[k], h.platform, h.tools),
    decreases es.len(),
{
    if es.len() > 0 {
        let pre = es.drop_last();
        law_merge_urls(ss, pre, h);
        let r = additions(ss, pre, h);
        let t = additions(ss, es, h);
        let n = es.len() - 1;
        assert(es[n] == es.last());
        assert forall|i: int| 0 <= i < t.len() implies exists|k: int|
            0 <= k < es.len() && (#[trigger] t[i]).name == es[k].name && t[i].download_url is Some
                && t[i].download_url->0.len() > 0
                && (spec_download_url(es[k], h.platform, h.tools) == t[i].download_url || (spec_download_url(
                es[k],
                h.platform,
                h.tools,
            ) is None && es[k].download_url == t[i].download_url)) by {
            if i < r.len() {
                assert(t[i] == r[i]);
                let k = choose|k: int|
                    0 <= k < pre.len() && (#[trigger] r[i]).name == pre[k].name && r[i].download_url is Some
                        && r[i].download_url->0.len() > 0
                        && (spec_download_url(pre[k], h.platform, h.tools) == r[i].download_url || (
                        spec_download_url(pre[k], h.platform, h.tools) is None && pre[k].download_url
                        == r[i].download_url));
                assert(es[k] == pre[k]);
            } else {
                assert(t[i].name == es[n].name);
            }
        }
        assert forall|k: int|
            0 <= k < es.len() && (#[trigger] spec_download_url(es[k], h.platform, h.tools)) is Some && ({
                let u = spec_download_url(es[k], h.platform, h.tools)->0;
                let f = lower(last_segment(u));
                u.len() > 0 && f.len() > 0 && !ss.map_values(|s: ScreensaverV| key_of_file(s)).contains(f)
            }) implies exists|i: int|
                0 <= i < t.len() && (#[trigger] t[i]).name == es[k].name && t[i].download_url == spec_download_url(
                    es[k],
                    h.platform,
                    h.tools,
                ) by {
            if k < n {
                assert(pre[k] == es[k]);
                assert(spec_download_url(pre[k], h.platform, h.tools) is Some);
                let i = choose|i: int|
                    0 <= i < r.len() && (#[trigger] r[i]).name == pre[k].name && r[i].download_url
                        == spec_download_url(pre[k], h.platform, h.tools);
                assert(t[i] == r[i]);
            } else {
                assert(t[r.len() as int].name == es[k].name);
            }
        }
    }
}

/// The heading line `--- text ---` of a level-two heading, bold in the accent colour.
pub open spec fn level_two_heading(text: Seq<char>, theme: TuiTheme) -> LineV {
    seq![(seq!['-', '-', '-', ' '] + text + seq![' ', '-', '-', '-'], TextStyle { fg: Some(theme.accent_primary), bold: true })]
}

/// The empty line of plain style.
pub open spec fn empty_line() -> LineV {
    seq![(Seq::<char>::empty(), TextStyle { fg: None, bold: false })]
}

/// Outside a code block, a line whose trimmed text starts with `## ` ends the
/// running paragraph (which becomes a line of its own in the main text
/// colour, when there is one) and adds a blank line, the heading
/// `--- text ---` (bold, accent colour) and a blank line.
pub proof fn law_markdown_level_two_heading(out: Seq<LineV>, para: Seq<char>, line: Seq<char>, theme: TuiTheme)
    requires
        has_prefix(trim(line), seq!['#', '#', ' ']),
    ensures
        md_step((out, false, para), line, theme) == (
            (if para.len() > 0 {
                out.push(seq![(para, TextStyle { fg: Some(theme.text_main), bold: false })])
            } else {
                out
            }).push(empty_line()).push(level_two_heading(trim(line).skip(3), theme)).push(empty_line()),
            false,
            Seq::<char>::empty(),
        ),
{
    let t = trim(line);
    assert(t[0] == '#' && t[1] == '#' && t[2] == ' ') by {
        assert(t.take(3)[0] == t[0] && t.take(3)[1] == t[1] && t.take(3)[2] == t[2]);
    }
    assert(!has_prefix(t, seq!['`', '`', '`'])) by {
        if has_prefix(t, seq!['`', '`', '`']) {
            assert(t.take(3)[0] == '`');
        }
    }
    assert(!has_prefix(t, seq!['#', ' '])) by {
        if has_prefix(t, seq!['#', ' ']) {
            assert(t.take(2)[1] == ' ');
        }
    }
    assert(t.len() != 0);
}

/// A document whose last line is a level-two heading, outside a code block,
/// ends with a blank line, the heading `--- text ---` and a blank line.
pub proof fn law_markdown_ends_with_heading(content: Seq<char>, theme: TuiTheme)
    requires
        lines_of(content).len() > 0,
        !md_scan(lines_of(content).drop_last(), theme).1,
        has_prefix(trim(lines_of(content).last()), seq!['#', '#', ' ']),
    ensures
        ({
            let m = markdown_lines(content, theme);
            &&& m.len() >= 3
            &&& m[m.len() - 3] == empty_line()
            &&& m[m.len() - 2] == level_two_heading(trim(lines_of(content).last()).skip(3), theme)
            &&& m[m.len() - 1] == empty_line()
        }),
{
    let ls = lines_of(content);
    let st = md_scan(ls.drop_last(), theme);
    law_markdown_level_two_heading(st.0, st.2, ls.last(), theme);
    assert(md_scan(ls, theme) == md_step(st, ls.last(), theme));
}

/// In the main view, `r` and `R` ask for the installed screensavers to be
/// listed again, waiting to refresh the list; the picker keeps running and
/// nothing else changes but a cleared error status.
pub proof fn law_refresh_key(v: AppV, code: KeyCode, m: KeyModifiers, present: bool)
    requires
        !v.show_help,
        v.show_markdown is None,
        code == KeyCode::Char('r') || code == KeyCode::Char('R'),
    ensures
        spec_handle_key(v, code, m, present) == ((AppV {
            request: Some(RequestV::Discover),
            awaiting: Some(StepV::Refreshed),
            ..clear_error(v)
        }), v.should_quit),
{
    reveal(spec_main_key);
}

/// The selected paths paired with whether their file exists.
pub open spec fn with_presence(paths: Seq<Seq<char>>, exists: Seq<bool>) -> Seq<(Seq<char>, bool)> {
    Seq::new(paths.len(), |i: int| (paths[i], exists[i]))
}

/// The random cycle takes part exactly the selected paths whose file exists,
/// that are not the program itself and whose file name does not mention
/// "uninstall", in the order of the selection.
pub proof fn law_cycle_candidates_exact(paths: Seq<Seq<char>>, exists: Seq<bool>, exe: Option<Seq<char>>, platform: Platform)
    requires
        exists.len() == paths.len(),
    ensures
        candidates_of(paths, exists, exe, platform) == with_presence(paths, exists).filter(
            |x: (Seq<char>, bool)| x.1 && !is_self_path(x.0, exe, platform) && !names_uninstaller(x.0),
        ).map_values(|x: (Seq<char>, bool)| x.0),
    decreases paths.len(),
{
    let f = |x: (Seq<char>, bool)| x.1 && !is_self_path(x.0, exe, platform) && !names_uninstaller(x.0);
    let g = |x: (Seq<char>, bool)| x.0;
    if paths.len() == 0 {
        assert(with_presence(paths, exists) =~= Seq::<(Seq<char>, bool)>::empty());
        assert(with_presence(paths, exists).filter(f) =~= Seq::<(Seq<char>, bool)>::empty());
    } else {
        let n = paths.len() - 1;
        law_cycle_candidates_exact(paths.take(n), exists.take(n), exe, platform);
        let w = with_presence(paths, exists);
        let w0 = with_presence(paths.take(n), exists.take(n));
        assert(w0 =~= w.drop_last());
        assert(w =~= w0.push((paths[n], exists[n])));
        w0.lemma_filter_push((paths[n], exists[n]), f);
        let fl = w0.filter(f);
        assert(fl.push((paths[n], exists[n])).map_values(g) =~= fl.map_values(g).push(paths[n]));
    }
}

/// Whether `path` stores the download from `u` under the directory `dir`: it
/// ends with the URL's last segment, lower-cased, and starts with the
/// directory when there is one.
pub open spec fn stored_under(path: Seq<char>, u: Seq<char>, dir: Option<Seq<char>>) -> bool {
    let f = lower(last_segment(u));
    &&& path.len() >= f.len()
    &&& path.skip(path.len() - f.len()) == f
    &&& (match dir {
        Some(d) => path.len() >= d.len() && path.take(d.len() as int) == d,
        None => path == f,
    })
}

/// Each screensaver the registry merge adds is stored in the download
/// directory under the lower-cased last segment of its download URL.
pub proof fn law_merge_paths(ss: Seq<ScreensaverV>, es: Seq<RegistryEntryV>, h: HostV)
    ensures
        forall|i: int|
            0 <= i < additions(ss, es, h).len() ==> (#[trigger] additions(ss, es, h)[i]).download_url is Some
                && stored_under(additions(ss, es, h)[i].path, additions(ss, es, h)[i].download_url->0, h.saver_dir),
    decreases es.len(),
{
    if es.len() > 0 {
        let pre = es.drop_last();
        law_merge_paths(ss, pre, h);
        let r = additions(ss, pre, h);
        let t = additions(ss, es, h);
        assert forall|i: int| 0 <= i < t.len() implies (#[trigger] t[i]).download_url is Some
            && stored_under(t[i].path, t[i].download_url->0, h.saver_dir) by {
            if i < r.len() {
                assert(t[i] == r[i]);
            } else {
                let u = t[i].download_url->0;
                let f = lower(last_segment(u));
                let p = t[i].path;
                assert(p == crate::catalog::join_path(h.saver_dir, f, h.platform));
                match h.saver_dir {
                    Some(d) => {
                        if d.len() == 0 {
                            assert(p.take(0) =~= d);
                            assert(p.skip(p.len() - f.len()) =~= f);
                        } else if crate::catalog::ends_in_sep(d, h.platform) {
                            assert(p.take(d.len() as int) =~= d);
                            assert(p.skip(p.len() - f.len()) =~= f);
                        } else {
                            assert(p.take(d.len() as int) =~= d);
                            assert(p.skip(p.len() - f.len()) =~= f);
                        }
                    },
                    None => {
                        assert(p.skip(p.len() - f.len()) =~= f);
                    },
                }
            }
        }
    }
}

} // verus!
