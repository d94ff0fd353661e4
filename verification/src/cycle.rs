//! The random cycle: which selected screensavers take part, the pseudo-random
//! choice of the next one, and the decisions between two launches. Starting,
//! watching and stopping the screensaver processes is left to the caller.
use vstd::prelude::*;
use crate::model::{file_name, file_name_of, lower, strs_view, to_lowercase, LocalConfig};
use crate::registry::{same_chars, Platform};
use crate::text::{chars_of, has_infix, split_chars, split_on, string_from};

verus! {

/// The word that marks an uninstaller.
pub open spec fn uninstall_word() -> Seq<char> {
    seq!['u', 'n', 'i', 'n', 's', 't', 'a', 'l', 'l']
}

/// Whether the file name of `p`, lower-cased, contains "uninstall".
pub open spec fn names_uninstaller(p: Seq<char>) -> bool {
    match file_name(p) {
        Some(n) => has_infix(lower(n), uninstall_word()),
        None => false,
    }
}

/// Whether a path names an uninstaller, which the random cycle never launches.
pub fn is_uninstall(path: &str) -> (b: bool)
    ensures
        b == names_uninstaller(path@),
{
    match file_name_of(path) {
        Some(n) => {
            let l = to_lowercase(n.as_str());
            let lv = chars_of(l.as_str());
            let word: Vec<char> = vec!['u', 'n', 'i', 'n', 's', 't', 'a', 'l', 'l'];
            assert(word@ =~= uninstall_word());
            crate::text::contains_seq(lv.as_slice(), word.as_slice())
        },
        None => false,
    }
}

/// The view of an optional string.
pub open spec fn opt_str(o: Option<&str>) -> Option<Seq<char>> {
    match o {
        Some(s) => Some(s@),
        None => None,
    }
}

/// Whether `c` separates path components on `platform`: `/` everywhere, and
/// `\` on Windows too.
pub open spec fn path_sep(c: char, platform: Platform) -> bool {
    c == '/' || (platform == Platform::Windows && c == '\\')
}

/// `p` with every separator of `platform` written as `/`.
pub open spec fn unify_seps(p: Seq<char>, platform: Platform) -> Seq<char> {
    Seq::new(p.len(), |i: int| if path_sep(p[i], platform) { '/' } else { p[i] })
}

/// Whether a piece between separators names a component: not empty and not `.`.
pub open spec fn kept_part(x: Seq<char>) -> bool {
    x.len() > 0 && x != seq!['.']
}

/// Whether `p` starts at the root (with a separator of `platform`).
pub open spec fn is_rooted(p: Seq<char>, platform: Platform) -> bool {
    p.len() > 0 && path_sep(p[0], platform)
}

/// The components of `p` as path comparison sees them: the pieces between
/// separators, without empty pieces and without `.` after the first piece.
pub open spec fn path_parts(p: Seq<char>, platform: Platform) -> Seq<Seq<char>> {
    let parts = split_on(unify_seps(p, platform), '/');
    let first = if parts[0].len() > 0 { seq![parts[0]] } else { Seq::empty() };
    first + parts.drop_first().filter(|x: Seq<char>| kept_part(x))
}

/// Whether two paths name the same place component by component (repeated
/// separators, a trailing separator and inner `.` components do not count).
pub open spec fn same_path(a: Seq<char>, b: Seq<char>, platform: Platform) -> bool {
    is_rooted(a, platform) == is_rooted(b, platform) && path_parts(a, platform) == path_parts(b, platform)
}

/// Whether `p` is the running program itself.
pub open spec fn is_self_path(p: Seq<char>, exe: Option<Seq<char>>, platform: Platform) -> bool {
    match exe {
        Some(e) => same_path(e, p, platform),
        None => false,
    }
}

/// The views of a list of character vectors.
pub open spec fn vecs_view(v: Seq<Vec<char>>) -> Seq<Seq<char>> {
    v.map_values(|x: Vec<char>| x@)
}

fn path_key(path: &str, platform: Platform) -> (r: (bool, Vec<Vec<char>>))
    ensures
        r.0 == is_rooted(path@, platform),
        vecs_view(r.1@) == path_parts(path@, platform),
{
    let v = chars_of(path);
    let windows = platform == Platform::Windows;
    let mut u: Vec<char> = Vec::new();
    let mut i: usize = 0;
    while i < v.len()
        invariant
            i <= v@.len(),
            v@ == path@,
            u@ == unify_seps(v@.take(i as int), platform),
            windows == (platform == Platform::Windows),
        decreases v@.len() - i,
    {
        let c = if v[i] == '/' || (windows && v[i] == '\\') { '/' } else { v[i] };
        u.push(c);
        i = i + 1;
        assert(u@ =~= unify_seps(v@.take(i as int), platform));
    }
    assert(v@.take(v@.len() as int) == v@);
    let rooted = v.len() > 0 && (v[0] == '/' || (windows && v[0] == '\\'));
    let sp = split_chars(u.as_slice(), '/');
    let ghost parts = split_on(unify_seps(path@, platform), '/');
    let ghost f = |x: Seq<char>| kept_part(x);
    let mut out: Vec<Vec<char>> = Vec::new();
    if sp[0].len() > 0 {
        out.push(copy_chars(sp[0].as_slice()));
    }
    let ghost first = vecs_view(out@);
    assert(first == (if parts[0].len() > 0 { seq![parts[0]] } else { Seq::<Seq<char>>::empty() }));
    let mut j: usize = 1;
    while j < sp.len()
        invariant
            1 <= j <= sp@.len(),
            sp@.len() == parts.len(),
            forall|k: int| 0 <= k < sp@.len() ==> #[trigger] sp@[k]@ == parts[k],
            f == (|x: Seq<char>| kept_part(x)),
            vecs_view(out@) == first + parts.drop_first().take(j - 1).filter(f),
        decreases sp@.len() - j,
    {
        let piece = &sp[j];
        let keep = piece.len() > 0 && !(piece.len() == 1 && piece[0] == '.');
        proof {
            let t = parts.drop_first().take(j - 1);
            assert(parts.drop_first().take(j as int) == t.push(parts[j as int]));
            t.lemma_filter_push(parts[j as int], f);
            assert(piece@ == parts[j as int]);
            if piece@.len() == 1 && piece@[0] == '.' {
                assert(piece@ =~= seq!['.']);
            }
            if piece@ == seq!['.'] {
                assert(piece@[0] == '.');
            }
            assert(keep == f(parts[j as int]));
        }
        if keep {
            let ghost before = vecs_view(out@);
            out.push(copy_chars(piece.as_slice()));
            assert(vecs_view(out@) =~= before.push(parts[j as int]));
        }
        j = j + 1;
    }
    assert(parts.drop_first().take(sp@.len() - 1) =~= parts.drop_first());
    (rooted, out)
}

fn copy_chars(v: &[char]) -> (r: Vec<char>)
    ensures
        r@ == v@,
{
    let mut r: Vec<char> = Vec::new();
    let mut i: usize = 0;
    while i < v.len()
        invariant
            i <= v@.len(),
            r@ == v@.take(i as int),
        decreases v@.len() - i,
    {
        r.push(v[i]);
        i = i + 1;
        assert(r@ =~= v@.take(i as int));
    }
    assert(v@.take(v@.len() as int) =~= v@);
    r
}

/// Whether `path` is the running program, whose path is `exe` when it is known
/// (compared as paths are on `platform`: component by component, with `\\` a
/// separator only on Windows).
pub fn is_self(path: &str, exe: Option<&str>, platform: Platform) -> (b: bool)
    ensures
        b == is_self_path(path@, opt_str(exe), platform),
{
    match exe {
        Some(e) => {
            let (ra, pa) = path_key(e, platform);
            let (rb, pb) = path_key(path, platform);
            if ra != rb || pa.len() != pb.len() {
                assert(vecs_view(pa@).len() == pa@.len());
                return false;
            }
            let mut i: usize = 0;
            while i < pa.len()
                invariant
                    pa@.len() == pb@.len(),
                    i <= pa@.len(),
                    vecs_view(pa@) == path_parts(e@, platform),
                    vecs_view(pb@) == path_parts(path@, platform),
                    exe == Some(e),
                    ra == rb,
                    ra == is_rooted(e@, platform),
                    rb == is_rooted(path@, platform),
                    forall|k: int| 0 <= k < i ==> pa@[k]@ == pb@[k]@,
                decreases pa@.len() - i,
            {
                if !same_chars(pa[i].as_slice(), pb[i].as_slice()) {
                    assert(vecs_view(pa@)[i as int] == pa@[i as int]@);
                    assert(vecs_view(pb@)[i as int] == pb@[i as int]@);
                    assert(path_parts(e@, platform) != path_parts(path@, platform));
                    return false;
                }
                i = i + 1;
            }
            assert(vecs_view(pa@) =~= vecs_view(pb@));
            true
        },
        None => false,
    }
}

/// Whether a selected path takes part in the random cycle: the file exists, is
/// not the program itself and is no uninstaller.
pub open spec fn takes_part(p: Seq<char>, exists: bool, exe: Option<Seq<char>>, platform: Platform) -> bool {
    exists && !is_self_path(p, exe, platform) && !names_uninstaller(p)
}

/// The selected paths that take part in the cycle, in their order; `exists[i]`
/// tells whether `paths[i]` is on disk.
pub open spec fn candidates_of(paths: Seq<Seq<char>>, exists: Seq<bool>, exe: Option<Seq<char>>, platform: Platform) -> Seq<Seq<char>>
    decreases paths.len(),
{
    if paths.len() == 0 {
        Seq::empty()
    } else {
        let n = paths.len() - 1;
        let rest = candidates_of(paths.take(n), exists.take(n), exe, platform);
        if takes_part(paths[n], exists[n], exe, platform) {
            rest.push(paths[n])
        } else {
            rest
        }
    }
}

/// The selected paths that take part in the random cycle, in the order of the selection.
pub fn cycle_candidates(selected: &Vec<String>, exists: &Vec<bool>, exe: Option<&str>, platform: Platform) -> (r: Vec<String>)
    requires
        exists@.len() == selected@.len(),
    ensures
        strs_view(r@) == candidates_of(strs_view(selected@), exists@, opt_str(exe), platform),
{
    let ghost paths = strs_view(selected@);
    let mut out: Vec<String> = Vec::new();
    let mut i: usize = 0;
    while i < selected.len()
        invariant
            i <= selected@.len(),
            exists@.len() == selected@.len(),
            paths == strs_view(selected@),
            strs_view(out@) == candidates_of(paths.take(i as int), exists@.take(i as int), opt_str(exe), platform),
        decreases selected@.len() - i,
    {
        let p = &selected[i];
        let keep = exists[i] && !is_self(p.as_str(), exe, platform) && !is_uninstall(p.as_str());
        proof {
            assert(paths.take(i + 1).take(i as int) == paths.take(i as int));
            assert(exists@.take(i + 1).take(i as int) == exists@.take(i as int));
            assert(paths.take(i + 1)[i as int] == p@);
        }
        if keep {
            out.push(string_from(chars_of(p.as_str()).as_slice()));
            assert(strs_view(out@) =~= candidates_of(paths.take(i as int), exists@.take(i as int), opt_str(exe), platform).push(p@));
        }
        i = i + 1;
    }
    assert(paths.take(selected@.len() as int) == paths);
    assert(exists@.take(selected@.len() as int) == exists@);
    out
}

/// The multiplier of the seed's linear congruential step.
pub open spec fn lcg_mul() -> int {
    6364136223846793005
}

/// The increment of the seed's linear congruential step.
pub open spec fn lcg_inc() -> int {
    1442695040888963407
}

/// The seed that follows `s`: `s * 6364136223846793005 + 1442695040888963407` modulo 2^64.
pub open spec fn seed_after(s: u64) -> int {
    (s * lcg_mul() + lcg_inc()) % 0x1_0000_0000_0000_0000
}

/// Adding the increment to a product reduced modulo 2^64, and wrapping once,
/// gives the sum modulo 2^64.
proof fn lemma_step_mod(x: int, m: int, r: int)
    requires
        x >= 0,
        m == x % 0x1_0000_0000_0000_0000,
        r == (if m + lcg_inc() > 0xffff_ffff_ffff_ffff { m + lcg_inc() - 0x1_0000_0000_0000_0000 } else { m + lcg_inc() }),
    ensures
        r == (x + lcg_inc()) % 0x1_0000_0000_0000_0000,
{
    let big: int = 0x1_0000_0000_0000_0000;
    vstd::arithmetic::div_mod::lemma_add_mod_noop(x, lcg_inc(), big);
    vstd::arithmetic::div_mod::lemma_small_mod(lcg_inc() as nat, big as nat);
    assert(0 <= m < big);
    if m + lcg_inc() >= big {
        vstd::arithmetic::div_mod::lemma_mod_sub_multiples_vanish(m + lcg_inc(), big);
        vstd::arithmetic::div_mod::lemma_small_mod((m + lcg_inc() - big) as nat, big as nat);
    } else {
        vstd::arithmetic::div_mod::lemma_small_mod((m + lcg_inc()) as nat, big as nat);
    }
}

/// The next seed of the random cycle.
pub fn next_seed(seed: u64) -> (r: u64)
    ensures
        r == seed_after(seed),
{
    let m = seed.wrapping_mul(6364136223846793005);
    let r = m.wrapping_add(1442695040888963407);
    proof {
        lemma_step_mod(seed * lcg_mul(), m as int, r as int);
    }
    r
}

/// The position of the candidate that `seed` picks among `n`.
pub fn pick_index(seed: u64, n: usize) -> (i: usize)
    requires
        n > 0,
    ensures
        i == (seed as usize) % n,
        i < n,
{
    (seed as usize) % n
}

/// What the caller does next in the random cycle.
pub enum CycleAction {
    /// Start the screensaver at `path` with the argument `arg`.
    Launch { path: String, arg: String },
    /// End the cycle.
    Stop,
}

/// What happened to the last launch.
#[derive(Clone, Copy, PartialEq, Eq, Debug, Structural)]
pub enum CycleEvent {
    /// The screensaver could not be started.
    SpawnFailed,
    /// It ended by itself (the user dismissed it) or could no longer be watched.
    Exited,
    /// It ran for the whole cycle time.
    TimedOut,
}

/// The state of a running random cycle.
pub struct CycleState {
    /// The screensavers that take part (never empty).
    pub candidates: Vec<String>,
    /// The pseudo-random seed.
    pub seed: u64,
    /// Seconds each screensaver runs.
    pub duration_secs: u32,
}

impl CycleState {
    /// Whether the state can pick a screensaver.
    pub open spec fn wf(&self) -> bool {
        self.candidates@.len() > 0
    }

    /// The path the next launch starts, from the seed after `seed`.
    pub open spec fn next_pick(&self) -> Seq<char> {
        let s = seed_after(self.seed) as u64;
        self.candidates@[((s as usize) % (self.candidates@.len() as usize)) as int]@
    }
}

/// The cycle state for the selected screensavers of `local`, seeded with the
/// clock `now_secs`; `None` when no selected screensaver takes part.
pub fn start_cycle(
    local: &LocalConfig,
    exists: &Vec<bool>,
    exe: Option<&str>,
    platform: Platform,
    now_secs: u64,
) -> (r: Option<CycleState>)
    requires
        exists@.len() == local.selected_paths@.len(),
    ensures
        match r {
            Some(st) => {
                &&& st.wf()
                &&& strs_view(st.candidates@) == candidates_of(local@.selected_paths, exists@, opt_str(exe), platform)
                &&& st.seed == now_secs
                &&& st.duration_secs == local.random_cycle_secs
            },
            None => candidates_of(local@.selected_paths, exists@, opt_str(exe), platform).len() == 0,
        },
{
    let candidates = cycle_candidates(&local.selected_paths, exists, exe, platform);
    if candidates.len() == 0 {
        return None;
    }
    Some(CycleState { candidates, seed: now_secs, duration_secs: local.random_cycle_secs })
}

/// The argument that starts a screensaver full screen.
pub open spec fn fullscreen_arg() -> Seq<char> {
    seq!['/', 's']
}

impl CycleState {
    /// Advances the seed and names the screensaver to start next.
    pub fn launch_next(&mut self) -> (a: CycleAction)
        requires
            old(self).wf(),
        ensures
            final(self).wf(),
            final(self).candidates@ == old(self).candidates@,
            final(self).duration_secs == old(self).duration_secs,
            final(self).seed == seed_after(old(self).seed),
            match a {
                CycleAction::Launch { path, arg } => path@ == old(self).next_pick() && arg@ == fullscreen_arg(),
                CycleAction::Stop => false,
            },
    {
        self.seed = next_seed(self.seed);
        let i = pick_index(self.seed, self.candidates.len());
        let path = string_from(chars_of(self.candidates[i].as_str()).as_slice());
        let slash_s: Vec<char> = vec!['/', 's'];
        let arg = string_from(slash_s.as_slice());
        assert(arg@ =~= fullscreen_arg());
        CycleAction::Launch { path, arg }
    }

    /// The decision after a launch: a screensaver that failed to start or that
    /// ended by itself ends the cycle; one that ran its time is followed by the next.
    pub fn on_event(&mut self, event: CycleEvent) -> (a: CycleAction)
        requires
            old(self).wf(),
        ensures
            final(self).wf(),
            final(self).candidates@ == old(self).candidates@,
            final(self).duration_secs == old(self).duration_secs,
            match event {
                CycleEvent::TimedOut => {
                    &&& final(self).seed == seed_after(old(self).seed)
                    &&& a matches CycleAction::Launch { path, arg }
                    &&& path@ == old(self).next_pick()
                    &&& arg@ == fullscreen_arg()
                },
                _ => final(self).seed == old(self).seed && a is Stop,
            },
    {
        match event {
            CycleEvent::TimedOut => self.launch_next(),
            _ => CycleAction::Stop,
        }
    }
}

} // verus!
