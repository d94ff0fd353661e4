//! The outcome of each request handed back to the picker, and the events the
//! front end reports: a finished download, a change of the power source, a
//! change of the system settings by someone else, an embedded document.
use vstd::prelude::*;
use crate::actions::{
    bool_str, bool_text, error_msg, info_msg, join2, remember_current, spec_apply, spec_apply_core,
    spec_configure, spec_preview, spec_refresh, spec_toggle_and_apply, spec_toggle_selection,
    spec_trigger, needs_download, with_local, with_request,
};
use crate::app::{
    entries_view, error, filtered, first_at, first_where, info, lemma_first_where, spec_current,
    spec_resolve, App, AppV, FocusedSection, GlobalField, HostInfo, HostV, PendingAction, Reply,
    ReplyV, Request, RequestV, StatusKind, StatusMessage, Step, StepV,
};
use crate::catalog::{additions, copy_entries, stable_sorted_by_name, with_list};
use crate::markdown::{markdown_lines, parse_markdown_to_lines};
use crate::model::{
    file_name, file_name_of, is_stock, savers_view, strs_view, GlobalConfig, GlobalV, LocalConfig,
    LocalV, Screensaver, ScreensaverV,
};
use crate::actions::non_stock;
use crate::styled::lines_view;
use crate::text::{ascii_lower_seq, chars_of, eq_ignore_ascii_case, push_str};
use crate::theme::TuiTheme;

verus! {

/// `v` with no request outstanding.
pub open spec fn settled(v: AppV) -> AppV {
    AppV { request: None, awaiting: None, ..v }
}

/// `v` with the status `s`.
pub open spec fn with_status(v: AppV, s: Option<(Seq<char>, StatusKind)>) -> AppV {
    AppV { status: s, ..v }
}

/// The document `title` with text `content` opened in the viewer.
pub open spec fn spec_open_doc(v: AppV, title: Seq<char>, content: Seq<char>) -> AppV {
    AppV {
        markdown_lines: markdown_lines(content, v.theme),
        show_markdown: Some(title),
        markdown_scroll: 0,
        status: info("Opened document: "@ + title),
        ..v
    }
}

/// The list after rediscovery: the discovered screensavers merged with the
/// registry entries and sorted (into `sorted`), the highlight brought back.
pub open spec fn spec_after_discover(v: AppV, sorted: Seq<ScreensaverV>) -> AppV {
    spec_resolve(AppV { screensavers: sorted, status: info("Refreshed screensavers list."@), ..v })
}

/// Whether the listed screensaver `s` is the one named `name` by a finished
/// download: by name, file name, file name with `.scr` or `.exe`, or file stem,
/// compared without regard to ASCII case.
pub open spec fn is_downloaded(s: ScreensaverV, name: Seq<char>) -> bool {
    let n = ascii_lower_seq(name);
    ||| ascii_lower_seq(s.name) == n
    ||| match file_name(s.path) {
        Some(f) => ascii_lower_seq(f) == n || ascii_lower_seq(f) == ascii_lower_seq(name + ".scr"@)
            || ascii_lower_seq(f) == ascii_lower_seq(name + ".exe"@),
        None => false,
    }
    ||| match file_stem(s.path) {
        Some(t) => ascii_lower_seq(t) == n,
        None => false,
    }
}

/// The index of the last `'.'` of `f`, or -1.
pub open spec fn last_dot(f: Seq<char>) -> int
    decreases f.len(),
{
    if f.len() == 0 {
        -1
    } else if f.last() == '.' {
        f.len() - 1
    } else {
        last_dot(f.drop_last())
    }
}

/// The file stem of a path: its file name without the last extension (a
/// leading dot does not start an extension).
pub open spec fn file_stem(p: Seq<char>) -> Option<Seq<char>> {
    match file_name(p) {
        Some(f) => if last_dot(f) <= 0 {
            Some(f)
        } else {
            Some(f.take(last_dot(f)))
        },
        None => None,
    }
}

/// The highlight put on the first listed screensaver that the download of `name` produced.
pub open spec fn spec_relocate(v: AppV, name: Seq<char>) -> AppV {
    let k = first_where(v.screensavers, |s: ScreensaverV| is_downloaded(s, name));
    AppV { highlighted: if k >= 0 { k as usize } else { v.highlighted }, ..v }
}

/// The list after the download of `name`: rediscovered as by a refresh, the
/// highlight put on the downloaded screensaver when found, the refresh status cleared.
pub open spec fn spec_after_download(v: AppV, sorted: Seq<ScreensaverV>, name: Seq<char>) -> AppV {
    let w = spec_after_discover(v, sorted);
    let k = first_where(w.screensavers, |s: ScreensaverV| is_downloaded(s, name));
    let h = if k >= 0 {
        k as usize
    } else {
        w.highlighted
    };
    spec_resolve(AppV { highlighted: h, status: None, ..w })
}

/// Whether a reply reports success (anything but a failure).
pub open spec fn succeeded(r: ReplyV) -> bool {
    !(r is Failed)
}

/// The failure message of a reply.
pub open spec fn failure(r: ReplyV) -> Seq<char> {
    match r {
        ReplyV::Failed(e) => e,
        _ => Seq::empty(),
    }
}

/// The state after the outcome `r` of the outstanding request.  `sorted` is the
/// list that the merge of a rediscovery produced (see `resume_sorted`).
pub open spec fn spec_resume(v: AppV, r: ReplyV, sorted: Seq<ScreensaverV>) -> AppV {
    match v.awaiting {
        None => settled(v),
        Some(st) => spec_finish(settled(v), st, r, sorted),
    }
}

/// The state after the step `st` got the outcome `r` (`v0` has no request outstanding).
pub open spec fn spec_finish(v0: AppV, st: StepV, r: ReplyV, sorted: Seq<ScreensaverV>) -> AppV {
    match st {
        StepV::Refreshed => match r {
            ReplyV::Screensavers(_) => spec_after_discover(v0, sorted),
            _ => v0,
        },
        StepV::Downloaded { name } => match r {
            ReplyV::Screensavers(_) => spec_after_download(v0, sorted, name),
            _ => v0,
        },
        StepV::Document { name } => match r {
            ReplyV::Document(c) => spec_open_doc(v0, name, c),
            ReplyV::Failed(e) => with_status(v0, error("Failed to open "@ + name + ": "@ + e)),
            _ => v0,
        },
        _ => spec_finish_basic(v0, st, succeeded(r), failure(r)),
    }
}

/// The state after a step that only cares whether its request succeeded (`ok`),
/// and the failure message `e` when it did not.
#[verifier::opaque]
pub open spec fn spec_finish_basic(v0: AppV, st: StepV, ok: bool, e: Seq<char>) -> AppV {
    match st {
        StepV::ActiveSaved => if ok {
            with_status(v0, info("Active = "@ + bool_text(v0.global.active)))
        } else {
            with_status(v0, error("Save failed: "@ + e))
        },
        StepV::PreventSleepSaved => if ok {
            with_status(v0, info("Prevent sleep = "@ + bool_text(v0.local.prevent_sleep)))
        } else {
            with_status(v0, error("Save failed: "@ + e))
        },
        StepV::HideStockSaved => if ok {
            spec_resolve(with_status(v0, info("Hide stock screensavers = "@ + bool_text(v0.local.hide_stock))))
        } else {
            with_status(v0, error("Save failed: "@ + e))
        },
        StepV::TimeoutSaved | StepV::CycleTimeSaved => if ok {
            v0
        } else {
            with_status(v0, error("Save failed: "@ + e))
        },
        StepV::ApplySaved => if ok {
            with_request(with_local(v0, remember_current(v0)), RequestV::SaveLocal, Some(StepV::Ignored))
        } else {
            with_status(v0, error("Failed to save: "@ + e))
        },
        StepV::SelectionSaved { then_apply } => if then_apply {
            spec_apply_core(v0)
        } else {
            v0
        },
        StepV::Previewed => if ok {
            v0
        } else {
            with_status(v0, error("Preview failed: "@ + e))
        },
        StepV::Configured { name } => if ok {
            with_status(v0, info("Opened settings for "@ + name))
        } else {
            with_status(v0, error("Configure failed: "@ + e))
        },
        StepV::Deleted { path, name } => if ok {
            let w = with_status(v0, info("Deleted screensaver: "@ + name));
            let pos = first_at(w.local.selected_paths, path);
            if pos >= 0 {
                with_request(
                    with_local(w, LocalV { selected_paths: w.local.selected_paths.remove(pos), ..w.local }),
                    RequestV::SaveLocal,
                    Some(StepV::DeleteSaved),
                )
            } else {
                spec_refresh(w)
            }
        } else {
            with_status(v0, error("Failed to delete: "@ + e))
        },
        StepV::DeleteSaved => spec_refresh(v0),
        _ => v0,
    }
}

/// Whether the merge of a rediscovery is what the resumed state's list came from:
/// the discovered list `list`, with the registry entries added, sorted into `sorted`.
pub open spec fn resume_sorted(v: AppV, r: ReplyV, sorted: Seq<ScreensaverV>) -> bool {
    match v.awaiting {
        Some(st) => finish_sorted(v, st, r, sorted),
        None => true,
    }
}

/// Whether `sorted` is what the merge of the rediscovered list `r` gives, when
/// the step `st` rediscovers.
pub open spec fn finish_sorted(v: AppV, st: StepV, r: ReplyV, sorted: Seq<ScreensaverV>) -> bool {
    match (Some(st), r) {
        (Some(StepV::Refreshed), ReplyV::Screensavers(list)) => stable_sorted_by_name(
            list + additions(list, v.registry_entries, v.host),
            sorted,
        ),
        (Some(StepV::Downloaded { name: _ }), ReplyV::Screensavers(list)) => stable_sorted_by_name(
            list + additions(list, v.registry_entries, v.host),
            sorted,
        ),
        _ => true,
    }
}

proof fn lemma_resolve_idempotent(v: AppV)
    ensures
        spec_resolve(spec_resolve(v)) == spec_resolve(v),
{
    let w = spec_resolve(v);
    let idx = filtered(v);
    assert(filtered(w) == idx);
    if idx.len() > 0 && first_at(idx, v.highlighted) < 0 {
        lemma_first_where(idx, |a: usize| a == idx[0], 0);
    }
}

fn clone_str(s: &String) -> (r: String)
    ensures
        r@ == s@,
{
    s.clone()
}

fn failure_text(r: &Reply) -> (s: String)
    ensures
        s@ == failure(r@),
{
    match r {
        Reply::Failed(e) => clone_str(e),
        _ => String::new(),
    }
}

impl App {
    /// Hand the outstanding request over to the front end.
    pub fn take_request(&mut self) -> (r: Option<Request>)
        ensures
            match r {
                Some(q) => old(self)@.request == Some(q@),
                None => (old(self)@.request is None),
            },
            final(self)@ == (AppV { request: None, ..old(self)@ }),
    {
        let mut r: Option<Request> = None;
        std::mem::swap(&mut r, &mut self.request);
        r
    }

    /// Load and open an embedded markdown document in the viewer modal.
    pub fn open_embedded_markdown(&mut self, title: &str, content: &str)
        ensures
            final(self)@ == spec_open_doc(old(self)@, title@, content@),
    {
        self.markdown_lines = parse_markdown_to_lines(content, &self.theme);
        self.show_markdown = Some(crate::text::string_from(chars_of(title).as_slice()));
        self.markdown_scroll = 0;
        self.status = Some(info_msg(join2("Opened document: ", title)));
    }

    fn after_discover(&mut self, list: Vec<Screensaver>)
        ensures
            stable_sorted_by_name(
                savers_view(list@) + additions(savers_view(list@), old(self)@.registry_entries, old(self)@.host),
                final(self)@.screensavers,
            ),
            final(self)@ == spec_after_discover(old(self)@, final(self)@.screensavers),
    {
        self.screensavers = list;
        let entries = copy_entries(&self.registry_entries);
        self.merge_registry_entries(entries);
        self.resolve_highlight();
        let mut t = String::new();
        push_str(&mut t, "Refreshed screensavers list.");
        self.status = Some(info_msg(t));
        proof {
            let w = with_list(old(self)@, final(self)@.screensavers, old(self)@.registry_entries);
            lemma_resolve_idempotent(AppV { status: None, ..w });
            assert(filtered(w) == filtered(AppV { status: final(self)@.status, ..w }));
        }
    }

    fn relocate(&mut self, name: &String)
        ensures
            final(self)@ == spec_relocate(old(self)@, name@),
    {
        let ghost ss = old(self)@.screensavers;
        let ghost pred = (|s: ScreensaverV| is_downloaded(s, name@));
        let n = chars_of(name.as_str());
        let mut scr = chars_of(name.as_str());
        scr.push('.');
        scr.push('s');
        scr.push('c');
        scr.push('r');
        let mut exe = chars_of(name.as_str());
        exe.push('.');
        exe.push('e');
        exe.push('x');
        exe.push('e');
        proof {
            reveal_strlit(".scr");
            reveal_strlit(".exe");
        }
        assert(scr@ =~= name@ + ".scr"@);
        assert(exe@ =~= name@ + ".exe"@);
        let mut k: usize = 0;
        while k < self.screensavers.len()
            invariant
                ss == savers_view(self.screensavers@),
                pred == (|s: ScreensaverV| is_downloaded(s, name@)),
                n@ == name@,
                scr@ == name@ + ".scr"@,
                exe@ == name@ + ".exe"@,
                k <= self.screensavers@.len(),
                forall|j: int| 0 <= j < k ==> !pred(#[trigger] ss[j]),
                self@ == old(self)@,
            decreases self.screensavers@.len() - k,
        {
            let s = &self.screensavers[k];
            let sn = chars_of(s.name.as_str());
            let mut hit = eq_ignore_ascii_case(sn.as_slice(), n.as_slice());
            let fname = file_name_of(s.path.as_str());
            if let Some(f) = fname {
                let fc = chars_of(f.as_str());
                if eq_ignore_ascii_case(fc.as_slice(), n.as_slice()) || eq_ignore_ascii_case(
                    fc.as_slice(),
                    scr.as_slice(),
                ) || eq_ignore_ascii_case(fc.as_slice(), exe.as_slice()) {
                    hit = true;
                }
                let st = stem_of(fc.as_slice());
                if eq_ignore_ascii_case(st.as_slice(), n.as_slice()) {
                    hit = true;
                }
            }
            assert(hit == pred(ss[k as int]));
            if hit {
                proof {
                    lemma_first_where(ss, pred, k as int);
                }
                self.highlighted = k;
                return;
            }
            k = k + 1;
        }
        proof {
            lemma_first_where(ss, pred, -1);
        }
    }

    /// The outcome `reply` of the outstanding request: finish the step waiting for it.
    pub fn resume(&mut self, reply: Reply)
        ensures
            resume_sorted(old(self)@, reply@, final(self)@.screensavers),
            final(self)@ == spec_resume(old(self)@, reply@, final(self)@.screensavers),
    {
        self.request = None;
        let mut st: Option<Step> = None;
        std::mem::swap(&mut st, &mut self.awaiting);
        if let Some(step) = st {
            self.finish(step, reply);
        }
    }

    #[verifier::rlimit(60)]
    fn finish(&mut self, step: Step, reply: Reply)
        ensures
            finish_sorted(old(self)@, step@, reply@, final(self)@.screensavers),
            final(self)@ == spec_finish(old(self)@, step@, reply@, final(self)@.screensavers),
    {
        if matches!(step, Step::Refreshed | Step::Downloaded { .. } | Step::Document { .. }) {
            self.finish_list(step, reply);
        } else {
            let ok = !matches!(reply, Reply::Failed(_));
            let e = failure_text(&reply);
            self.finish_basic(step, ok, e);
        }
    }

    #[verifier::rlimit(100)]
    #[verifier::spinoff_prover]
    fn finish_list(&mut self, step: Step, reply: Reply)
        requires
            step is Refreshed || step is Downloaded || step is Document,
        ensures
            finish_sorted(old(self)@, step@, reply@, final(self)@.screensavers),
            final(self)@ == spec_finish(old(self)@, step@, reply@, final(self)@.screensavers),
    {
        match step {
            Step::Refreshed => self.finish_refreshed(reply),
            Step::Downloaded { name } => self.finish_downloaded(name, reply),
            Step::Document { name } => self.finish_document(name, reply),
            _ => {},
        }
    }

    fn finish_refreshed(&mut self, reply: Reply)
        ensures
            finish_sorted(old(self)@, StepV::Refreshed, reply@, final(self)@.screensavers),
            final(self)@ == spec_finish(old(self)@, StepV::Refreshed, reply@, final(self)@.screensavers),
    {
        if let Reply::Screensavers(list) = reply {
            self.after_discover(list);
        }
    }

    fn finish_downloaded(&mut self, name: String, reply: Reply)
        ensures
            finish_sorted(old(self)@, StepV::Downloaded { name: name@ }, reply@, final(self)@.screensavers),
            final(self)@ == spec_finish(old(self)@, StepV::Downloaded { name: name@ }, reply@, final(self)@.screensavers),
    {
        if let Reply::Screensavers(list) = reply {
            self.after_download(list, &name);
        }
    }

    fn finish_document(&mut self, name: String, reply: Reply)
        ensures
            final(self)@ == spec_finish(old(self)@, StepV::Document { name: name@ }, reply@, final(self)@.screensavers),
    {
        match reply {
            Reply::Document(c) => self.open_embedded_markdown(name.as_str(), c.as_str()),
            Reply::Failed(e) => {
                let mut t = String::new();
                push_str(&mut t, "Failed to open ");
                push_str(&mut t, name.as_str());
                push_str(&mut t, ": ");
                push_str(&mut t, e.as_str());
                self.status = Some(error_msg(t));
            },
            _ => {},
        }
    }

    fn after_download(&mut self, list: Vec<Screensaver>, name: &String)
        ensures
            stable_sorted_by_name(
                savers_view(list@) + additions(savers_view(list@), old(self)@.registry_entries, old(self)@.host),
                final(self)@.screensavers,
            ),
            final(self)@ == spec_after_download(old(self)@, final(self)@.screensavers, name@),
    {
        self.after_discover(list);
        let ghost w = self@;
        self.relocate(name);
        self.resolve_highlight();
        self.status = None;
        proof {
            let x = spec_relocate(w, name@);
            assert(filtered(x) == filtered(AppV { status: None, ..x }));
        }
    }

    fn finish_basic(&mut self, step: Step, ok: bool, e: String)
        ensures
            final(self)@ == spec_finish_basic(old(self)@, step@, ok, e@),
    {
        reveal(spec_finish_basic);
        match step {
            Step::ActiveSaved | Step::PreventSleepSaved | Step::HideStockSaved | Step::TimeoutSaved
            | Step::CycleTimeSaved => self.finish_setting(step, ok, e),
            Step::ApplySaved => self.finish_apply(ok, e),
            Step::SelectionSaved { then_apply } => {
                if then_apply {
                    self.apply_core();
                }
            },
            Step::Previewed => {
                if !ok {
                    self.status = Some(error_msg(join2("Preview failed: ", e.as_str())));
                }
            },
            Step::Configured { name } => {
                if ok {
                    self.status = Some(info_msg(join2("Opened settings for ", name.as_str())));
                } else {
                    self.status = Some(error_msg(join2("Configure failed: ", e.as_str())));
                }
            },
            Step::Deleted { path, name } => self.finish_delete(path, name, ok, e),
            Step::DeleteSaved => {
                self.refresh_screensavers();
            },
            _ => {},
        }
    }

    fn finish_setting(&mut self, step: Step, ok: bool, e: String)
        requires
            step is ActiveSaved || step is PreventSleepSaved || step is HideStockSaved
                || step is TimeoutSaved || step is CycleTimeSaved,
        ensures
            final(self)@ == spec_finish_basic(old(self)@, step@, ok, e@),
    {
        reveal(spec_finish_basic);
        if !ok {
            self.status = Some(error_msg(join2("Save failed: ", e.as_str())));
            return;
        }
        match step {
            Step::ActiveSaved => {
                self.status = Some(info_msg(join2("Active = ", bool_str(self.global.active))));
            },
            Step::PreventSleepSaved => {
                self.status = Some(info_msg(join2("Prevent sleep = ", bool_str(self.local.prevent_sleep))));
            },
            Step::HideStockSaved => {
                self.resolve_highlight();
                self.status = Some(info_msg(join2("Hide stock screensavers = ", bool_str(self.local.hide_stock))));
            },
            _ => {},
        }
    }

    #[verifier::rlimit(60)]
    fn finish_apply(&mut self, ok: bool, e: String)
        ensures
            final(self)@ == spec_finish_basic(old(self)@, StepV::ApplySaved, ok, e@),
    {
        reveal(spec_finish_basic);
        if ok {
            let name = match self.current_screensaver() {
                Some(s) => file_name_of(s.path.as_str()),
                None => None,
            };
            if let Some(n) = name {
                self.local.last_selected = Some(n);
            }
            self.request = Some(Request::SaveLocal);
            self.awaiting = Some(Step::Ignored);
        } else {
            self.status = Some(error_msg(join2("Failed to save: ", e.as_str())));
        }
    }

    #[verifier::rlimit(60)]
    fn finish_delete(&mut self, path: String, name: String, ok: bool, e: String)
        ensures
            final(self)@ == spec_finish_basic(old(self)@, StepV::Deleted { path: path@, name: name@ }, ok, e@),
    {
        reveal(spec_finish_basic);
        if ok {
            self.status = Some(info_msg(join2("Deleted screensaver: ", name.as_str())));
            match Self::find_path(&self.local.selected_paths, &path) {
                Some(pos) => {
                    let ghost sel0 = strs_view(self.local.selected_paths@);
                    self.local.selected_paths.remove(pos);
                    assert(strs_view(self.local.selected_paths@) =~= sel0.remove(pos as int));
                    self.request = Some(Request::SaveLocal);
                    self.awaiting = Some(Step::DeleteSaved);
                },
                None => {
                    self.refresh_screensavers();
                },
            }
        } else {
            self.status = Some(error_msg(join2("Failed to delete: ", e.as_str())));
        }
    }

    fn find_path(sel: &Vec<String>, p: &String) -> (r: Option<usize>)
        ensures
            match r {
                Some(k) => k < sel@.len() && first_at(strs_view(sel@), p@) == k,
                None => first_at(strs_view(sel@), p@) == -1,
            },
    {
        let ghost sv = strs_view(sel@);
        let mut k: usize = 0;
        while k < sel.len()
            invariant
                sv == strs_view(sel@),
                k <= sel@.len(),
                forall|j: int| 0 <= j < k ==> sv[j] != p@,
            decreases sel@.len() - k,
        {
            if sel[k] == *p {
                proof {
                    lemma_first_where(sv, |a: Seq<char>| a == p@, k as int);
                }
                return Some(k);
            }
            k = k + 1;
        }
        proof {
            lemma_first_where(sv, |a: Seq<char>| a == p@, -1);
        }
        None
    }
}

/// The file stem of a file name: before its last dot, unless that dot leads.
fn stem_of(f: &[char]) -> (r: Vec<char>)
    ensures
        r@ == (if last_dot(f@) <= 0 { f@ } else { f@.take(last_dot(f@)) }),
{
    let mut k: usize = f.len();
    assert(f@.take(f@.len() as int) == f@);
    while k > 0 && f[k - 1] != '.'
        invariant
            k <= f@.len(),
            forall|j: int| k <= j < f@.len() ==> f@[j] != '.',
            last_dot(f@) == last_dot(f@.take(k as int)),
        decreases k,
    {
        proof {
            assert(f@.take(k as int).drop_last() == f@.take(k - 1));
        }
        k = k - 1;
    }
    proof {
        if k > 0 {
            assert(f@.take(k as int).last() == '.');
        }
        assert(f@.take(f@.len() as int) == f@);
    }
    let mut r: Vec<char> = Vec::new();
    let end = if k <= 1 {
        f.len()
    } else {
        k - 1
    };
    let mut i: usize = 0;
    while i < end
        invariant
            end <= f@.len(),
            i <= end,
            r@ == f@.take(i as int),
        decreases end - i,
    {
        r.push(f[i]);
        i = i + 1;
        assert(f@.take(i as int) == f@.take(i - 1).push(f@[i - 1]));
    }
    assert(f@.take(f@.len() as int) == f@);
    r
}

} // verus!
