//! Merging the curated registry into the screensaver list: registry entries
//! whose file is not installed are added, pointing into the download directory,
//! and the list is sorted by lower-cased name, keeping equal names in order.
use vstd::prelude::*;
use crate::app::{entries_view, filtered, spec_resolve, App, AppV, HostInfo, HostV};
use crate::model::{file_name, file_name_of, lower, savers_view, to_lowercase, Screensaver, ScreensaverV};
use crate::registry::{opt_view, pairs_view, spec_download_url, Platform, RegistryEntry, RegistryEntryV};
use crate::text::{
    ascii_lower_seq, chars_of, eq_ignore_ascii_case, last_segment, last_segment_of, push_chars, push_str,
    string_from,
};

verus! {

/// Code-point lexicographic order of strings (how `String`s compare).
pub open spec fn lex_le(a: Seq<char>, b: Seq<char>) -> bool
    decreases a.len(),
{
    if a.len() == 0 {
        true
    } else if b.len() == 0 {
        false
    } else if a[0] != b[0] {
        (a[0] as u32) < (b[0] as u32)
    } else {
        lex_le(a.drop_first(), b.drop_first())
    }
}

/// Strictly before in code-point lexicographic order.
pub open spec fn lex_lt(a: Seq<char>, b: Seq<char>) -> bool {
    lex_le(a, b) && a != b
}

/// Code-point order compares any two strings.
pub proof fn lemma_lex_total(a: Seq<char>, b: Seq<char>)
    ensures
        lex_le(a, b) || lex_le(b, a),
    decreases a.len(),
{
    if a.len() > 0 && b.len() > 0 {
        if a[0] == b[0] {
            lemma_lex_total(a.drop_first(), b.drop_first());
        } else {
            let x = a[0] as u32;
            let y = b[0] as u32;
            vstd::utf8::char_u32_cast(a[0], x);
            vstd::utf8::char_u32_cast(b[0], y);
            assert(x != y);
            if x < y {
                assert(lex_le(a, b));
            } else {
                assert(lex_le(b, a));
            }
        }
    }
}

/// Two strings each before or equal to the other are equal.
pub proof fn lemma_lex_antisym(a: Seq<char>, b: Seq<char>)
    requires
        lex_le(a, b),
        lex_le(b, a),
    ensures
        a == b,
    decreases a.len(),
{
    if a.len() == 0 {
        assert(b.len() == 0);
        assert(a =~= b);
    } else {
        assert(b.len() > 0);
        assert(a[0] == b[0]);
        lemma_lex_antisym(a.drop_first(), b.drop_first());
        assert(a =~= seq![a[0]] + a.drop_first());
        assert(b =~= seq![b[0]] + b.drop_first());
    }
}

/// Code-point order is transitive.
pub proof fn lemma_lex_trans(a: Seq<char>, b: Seq<char>, c: Seq<char>)
    requires
        lex_le(a, b),
        lex_le(b, c),
    ensures
        lex_le(a, c),
    decreases a.len(),
{
    if a.len() > 0 && b.len() > 0 && c.len() > 0 && a[0] == b[0] && b[0] == c[0] {
        lemma_lex_trans(a.drop_first(), b.drop_first(), c.drop_first());
    }
}

/// Every string is before or equal to itself.
pub proof fn lemma_lex_refl(a: Seq<char>)
    ensures
        lex_le(a, a),
    decreases a.len(),
{
    if a.len() > 0 {
        lemma_lex_refl(a.drop_first());
    }
}

/// Whether `perm` lists each of `0..n` exactly once.
pub open spec fn is_perm(perm: Seq<int>, n: nat) -> bool {
    &&& perm.len() == n
    &&& forall|k: int| 0 <= k < n ==> 0 <= #[trigger] perm[k] < n
    &&& forall|j: int, k: int| 0 <= j < k < n ==> #[trigger] perm[j] != #[trigger] perm[k]
}

/// Whether `out` is `src` sorted stably by the lower-cased names: a
/// rearrangement of it, in name order, with equal names in their order in `src`.
pub open spec fn stable_sorted_by_name(src: Seq<ScreensaverV>, out: Seq<ScreensaverV>) -> bool {
    exists|perm: Seq<int>|
        {
            &&& is_perm(perm, src.len())
            &&& out.len() == src.len()
            &&& forall|k: int| 0 <= k < out.len() ==> #[trigger] out[k] == src[perm[k]]
            &&& forall|j: int, k: int|
                0 <= j < k < out.len() ==> lex_le(lower(#[trigger] out[j].name), lower(#[trigger] out[k].name))
            &&& forall|j: int, k: int|
                0 <= j < k < out.len() && lower(#[trigger] out[j].name) == lower(#[trigger] out[k].name)
                    ==> perm[j] < perm[k]
        }
}

fn lex_lt_exec(a: &[char], b: &[char]) -> (r: bool)
    ensures
        r == lex_lt(a@, b@),
{
    let mut i: usize = 0;
    assert(a@.skip(0) =~= a@);
    assert(b@.skip(0) =~= b@);
    while i < a.len() && i < b.len() && a[i] == b[i]
        invariant
            i <= a@.len(),
            i <= b@.len(),
            forall|j: int| 0 <= j < i ==> a@[j] == b@[j],
            lex_le(a@, b@) == lex_le(a@.skip(i as int), b@.skip(i as int)),
        decreases a@.len() - i,
    {
        proof {
            let x = a@.skip(i as int);
            let y = b@.skip(i as int);
            assert(x.drop_first() == a@.skip(i + 1));
            assert(y.drop_first() == b@.skip(i + 1));
        }
        i = i + 1;
    }
    let le = if i == a.len() {
        true
    } else if i == b.len() {
        false
    } else {
        (a[i] as u32) < (b[i] as u32)
    };
    proof {
        let x = a@.skip(i as int);
        let y = b@.skip(i as int);
        if i < a@.len() && i < b@.len() {
            assert(x[0] == a@[i as int] && y[0] == b@[i as int]);
        }
    }
    assert(le == lex_le(a@, b@));
    if !le {
        return false;
    }
    if a.len() == b.len() && i == a.len() {
        assert(a@ =~= b@);
        return false;
    }
    assert(a@ != b@) by {
        if a@ == b@ {
            assert(a@.len() == b@.len());
            assert(i < a@.len());
        }
    }
    true
}

/// Sort `v` stably by lower-cased name.
pub fn sort_by_lower_name(v: Vec<Screensaver>) -> (r: Vec<Screensaver>)
    ensures
        stable_sorted_by_name(savers_view(v@), savers_view(r@)),
{
    let ghost src = savers_view(v@);
    let n = v.len();
    let mut rest = v;
    let mut out: Vec<Screensaver> = Vec::new();
    let mut keys: Vec<Vec<char>> = Vec::new();
    let ghost mut perm: Seq<int> = Seq::empty();
    let mut i: usize = 0;
    while i < n
        invariant
            n == src.len(),
            i <= n,
            savers_view(rest@) == src.skip(i as int),
            out@.len() == i,
            keys@.len() == i,
            is_perm(perm, i as nat),
            forall|k: int| 0 <= k < i ==> 0 <= #[trigger] perm[k] < i,
            forall|k: int| 0 <= k < i ==> #[trigger] out@[k]@ == src[perm[k]],
            forall|k: int| 0 <= k < i ==> #[trigger] keys@[k]@ == lower(out@[k]@.name),
            forall|j: int, k: int| 0 <= j < k < i ==> lex_le(#[trigger] keys@[j]@, #[trigger] keys@[k]@),
            forall|j: int, k: int|
                0 <= j < k < i && #[trigger] keys@[j]@ == #[trigger] keys@[k]@ ==> perm[j] < perm[k],
        decreases n - i,
    {
        assert(savers_view(rest@).len() == rest@.len());
        assert(savers_view(rest@)[0] == src[i as int]);
        let ghost r0 = rest@;
        let item = rest.remove(0);
        assert forall|k: int| 0 <= k < rest@.len() implies #[trigger] savers_view(rest@)[k] == src.skip(i + 1)[k] by {
            assert(rest@[k] == r0[k + 1]);
            assert(savers_view(r0)[k + 1] == src.skip(i as int)[k + 1]);
        }
        assert(savers_view(rest@) =~= src.skip(i + 1));
        let lk = to_lowercase(item.name.as_str());
        let key = chars_of(lk.as_str());
        let mut p: usize = 0;
        while p < out.len() && !lex_lt_exec(key.as_slice(), keys[p].as_slice())
            invariant
                out@.len() == i,
                keys@.len() == i,
                p <= i,
                forall|k: int| 0 <= k < p ==> !lex_lt(key@, #[trigger] keys@[k]@),
            decreases i - p,
        {
            p = p + 1;
        }
        let ghost old_keys = keys@;
        let ghost old_out = out@;
        let ghost old_perm = perm;
        proof {
            // everything before p is at most the new key, the element at p is above it
            assert forall|k: int| 0 <= k < p implies lex_le(#[trigger] old_keys[k]@, key@) by {
                lemma_lex_total(key@, old_keys[k]@);
                if old_keys[k]@ == key@ {
                    lemma_lex_refl(key@);
                }
            }
        }
        out.insert(p, item);
        keys.insert(p, key);
        proof {
            perm = old_perm.insert(p as int, i as int);
            let ki = keys@;
            assert forall|k: int| 0 <= k <= i implies #[trigger] ki[k]@ == (if k < p {
                old_keys[k]@
            } else if k == p {
                key@
            } else {
                old_keys[k - 1]@
            }) by {}
            assert forall|j: int, k: int| 0 <= j < k <= i implies lex_le(#[trigger] ki[j]@, #[trigger] ki[k]@) by {
                if k < p {
                } else if k == p {
                } else if j < p {
                    // old j < p <= old k - 1
                    assert(lex_le(old_keys[j]@, key@));
                    assert(lex_lt(key@, old_keys[p as int]@));
                    if k - 1 > p {
                        assert(lex_le(old_keys[p as int]@, old_keys[k - 1]@));
                        lemma_lex_trans(key@, old_keys[p as int]@, old_keys[k - 1]@);
                    }
                    lemma_lex_trans(old_keys[j]@, key@, old_keys[k - 1]@);
                } else if j == p {
                    assert(lex_lt(key@, old_keys[p as int]@));
                    if k - 1 > p {
                        assert(lex_le(old_keys[p as int]@, old_keys[k - 1]@));
                        lemma_lex_trans(key@, old_keys[p as int]@, old_keys[k - 1]@);
                    }
                } else {
                    assert(lex_le(old_keys[j - 1]@, old_keys[k - 1]@));
                }
            }
            assert forall|j: int, k: int|
                0 <= j < k <= i && #[trigger] ki[j]@ == #[trigger] ki[k]@ implies perm[j] < perm[k] by {
                if k < p {
                } else if k == p {
                    assert(old_perm[j] < i);
                } else if j < p {
                    assert(old_perm[j] < i);
                    assert(old_perm[k - 1] < i);
                    // the key at k (old k - 1) is strictly above the new key, so above old j too
                    assert(lex_le(old_keys[j]@, key@));
                    assert(lex_lt(key@, old_keys[p as int]@));
                    if k - 1 > p {
                        assert(lex_le(old_keys[p as int]@, old_keys[k - 1]@));
                        lemma_lex_trans(key@, old_keys[p as int]@, old_keys[k - 1]@);
                    }
                    assert(lex_le(key@, old_keys[k - 1]@));
                    if old_keys[j]@ == old_keys[k - 1]@ {
                        lemma_lex_antisym(key@, old_keys[j]@);
                        assert(key@ == old_keys[p as int]@) by {
                            if k - 1 > p {
                                lemma_lex_antisym(key@, old_keys[p as int]@);
                            }
                        }
                    }
                } else if j == p {
                    // the new key is strictly below every key after it
                    assert(lex_lt(key@, old_keys[p as int]@));
                    if k - 1 > p {
                        assert(lex_le(old_keys[p as int]@, old_keys[k - 1]@));
                        if key@ == old_keys[k - 1]@ {
                            lemma_lex_antisym(key@, old_keys[p as int]@);
                        }
                    }
                    assert(false);
                } else {
                    assert(old_keys[j - 1]@ == old_keys[k - 1]@);
                }
            }
            assert forall|j: int, k: int| 0 <= j < k <= i implies #[trigger] perm[j] != #[trigger] perm[k] by {
                if k < p {
                } else if k == p {
                    assert(old_perm[j] < i);
                } else if j < p {
                } else if j == p {
                    assert(old_perm[k - 1] < i);
                } else {
                }
            }
            assert forall|k: int| 0 <= k <= i implies #[trigger] out@[k]@ == src[perm[k]] by {
                if k < p {
                    assert(out@[k] == old_out[k]);
                } else if k == p {
                } else {
                    assert(out@[k] == old_out[k - 1]);
                }
            }
            assert forall|k: int| 0 <= k <= i implies #[trigger] keys@[k]@ == lower(out@[k]@.name) by {
                if k < p {
                    assert(out@[k] == old_out[k]);
                } else if k == p {
                } else {
                    assert(out@[k] == old_out[k - 1]);
                }
            }
        }
        i = i + 1;
    }
    proof {
        let o = savers_view(out@);
        assert forall|k: int| 0 <= k < o.len() implies #[trigger] o[k] == src[perm[k]] by {
            assert(o[k] == out@[k]@);
        }
        assert forall|j: int, k: int| 0 <= j < k < o.len() implies lex_le(lower(#[trigger] o[j].name), lower(#[trigger] o[k].name)) by {
            assert(keys@[j]@ == lower(out@[j]@.name));
            assert(keys@[k]@ == lower(out@[k]@.name));
        }
        assert forall|j: int, k: int|
            0 <= j < k < o.len() && lower(#[trigger] o[j].name) == lower(#[trigger] o[k].name) implies perm[j] < perm[k] by {
            assert(keys@[j]@ == lower(out@[j]@.name));
            assert(keys@[k]@ == lower(out@[k]@.name));
        }
    }
    out
}

/// The lower-cased file name of an installed screensaver (empty when it has none).
pub open spec fn key_of_file(s: ScreensaverV) -> Seq<char> {
    lower(
        match file_name(s.path) {
            Some(f) => f,
            None => Seq::empty(),
        },
    )
}

/// The URL a registry entry is downloaded from on this host (empty when it has none).
pub open spec fn entry_url(e: RegistryEntryV, h: HostV) -> Seq<char> {
    match spec_download_url(e, h.platform, h.tools) {
        Some(u) => u,
        None => match e.download_url {
            Some(u) => u,
            None => Seq::empty(),
        },
    }
}

/// The path separator of a platform.
pub open spec fn sep_char(p: Platform) -> char {
    if p == Platform::Windows {
        '\\'
    } else {
        '/'
    }
}

/// Whether a directory path already ends with a separator of the platform.
pub open spec fn ends_in_sep(d: Seq<char>, p: Platform) -> bool {
    d.len() > 0 && (d.last() == '/' || (p == Platform::Windows && d.last() == '\\'))
}

/// The path of the file `f` in the directory `d` (just `f` without a directory).
pub open spec fn join_path(d: Option<Seq<char>>, f: Seq<char>, p: Platform) -> Seq<char> {
    match d {
        None => f,
        Some(d) => if d.len() == 0 {
            f
        } else if ends_in_sep(d, p) {
            d + f
        } else {
            d.push(sep_char(p)) + f
        },
    }
}

/// The screensavers the registry entries `es` add to the installed ones `ss`:
/// each entry with a download URL whose lower-cased file name is not that of an
/// installed screensaver, stored under that name in the download directory.
pub open spec fn additions(ss: Seq<ScreensaverV>, es: Seq<RegistryEntryV>, h: HostV) -> Seq<ScreensaverV>
    decreases es.len(),
{
    if es.len() == 0 {
        Seq::empty()
    } else {
        let r = additions(ss, es.drop_last(), h);
        let e = es.last();
        let url = entry_url(e, h);
        let f = lower(last_segment(url));
        if url.len() == 0 || f.len() == 0 || ss.map_values(|s: ScreensaverV| key_of_file(s)).contains(f) {
            r
        } else {
            r.push(ScreensaverV { name: e.name, path: join_path(h.saver_dir, f, h.platform), download_url: Some(url) })
        }
    }
}

/// `v` with the list `list` and the registry entries `es`.
pub open spec fn with_list(v: AppV, list: Seq<ScreensaverV>, es: Seq<RegistryEntryV>) -> AppV {
    AppV { screensavers: list, registry_entries: es, ..v }
}

fn copy_string(s: &String) -> (r: String)
    ensures
        r@ == s@,
{
    s.clone()
}

fn copy_opt(o: &Option<String>) -> (r: Option<String>)
    ensures
        opt_view(r) == opt_view(*o),
{
    match o {
        Some(s) => Some(s.clone()),
        None => None,
    }
}

fn copy_pairs(v: &Vec<(String, String)>) -> (r: Vec<(String, String)>)
    ensures
        pairs_view(r@) == pairs_view(v@),
{
    let mut r: Vec<(String, String)> = Vec::new();
    let mut i: usize = 0;
    while i < v.len()
        invariant
            i <= v@.len(),
            pairs_view(r@) == pairs_view(v@).take(i as int),
        decreases v@.len() - i,
    {
        let ghost r0 = r@;
        let a = v[i].0.clone();
        let b = v[i].1.clone();
        r.push((a, b));
        assert(pairs_view(r@) =~= pairs_view(r0).push(pairs_view(v@)[i as int]));
        assert(pairs_view(v@).take(i + 1) =~= pairs_view(v@).take(i as int).push(pairs_view(v@)[i as int]));
        i = i + 1;
    }
    assert(pairs_view(v@).take(v@.len() as int) =~= pairs_view(v@));
    r
}

/// A copy of a registry entry.
pub fn copy_entry(e: &RegistryEntry) -> (r: RegistryEntry)
    ensures
        r@ == e@,
{
    RegistryEntry {
        name: copy_string(&e.name),
        author: copy_string(&e.author),
        description: copy_string(&e.description),
        download_url: copy_opt(&e.download_url),
        downloads: match &e.downloads {
            Some(m) => Some(copy_pairs(m)),
            None => None,
        },
        version: copy_string(&e.version),
    }
}

/// A copy of a list of registry entries.
pub fn copy_entries(v: &Vec<RegistryEntry>) -> (r: Vec<RegistryEntry>)
    ensures
        entries_view(r@) == entries_view(v@),
{
    let mut r: Vec<RegistryEntry> = Vec::new();
    let mut i: usize = 0;
    while i < v.len()
        invariant
            i <= v@.len(),
            entries_view(r@) == entries_view(v@).take(i as int),
        decreases v@.len() - i,
    {
        let ghost r0 = r@;
        r.push(copy_entry(&v[i]));
        assert(entries_view(r@) =~= entries_view(r0).push(entries_view(v@)[i as int]));
        assert(entries_view(v@).take(i + 1) =~= entries_view(v@).take(i as int).push(entries_view(v@)[i as int]));
        i = i + 1;
    }
    assert(entries_view(v@).take(v@.len() as int) =~= entries_view(v@));
    r
}

fn same_chars(a: &[char], b: &[char]) -> (r: bool)
    ensures
        r == (a@ == b@),
{
    if a.len() != b.len() {
        return false;
    }
    let mut i: usize = 0;
    while i < a.len()
        invariant
            a@.len() == b@.len(),
            i <= a@.len(),
            forall|j: int| 0 <= j < i ==> a@[j] == b@[j],
        decreases a@.len() - i,
    {
        if a[i] != b[i] {
            return false;
        }
        i = i + 1;
    }
    assert(a@ =~= b@);
    true
}

fn file_key(s: &Screensaver) -> (k: Vec<char>)
    ensures
        k@ == key_of_file(s@),
{
    let f = match file_name_of(s.path.as_str()) {
        Some(f) => f,
        None => String::new(),
    };
    let l = to_lowercase(f.as_str());
    chars_of(l.as_str())
}

fn has_key(keys: &Vec<Vec<char>>, k: &[char]) -> (r: bool)
    ensures
        r == keys@.map_values(|v: Vec<char>| v@).contains(k@),
{
    let ghost kv = keys@.map_values(|v: Vec<char>| v@);
    let mut i: usize = 0;
    while i < keys.len()
        invariant
            kv == keys@.map_values(|v: Vec<char>| v@),
            i <= keys@.len(),
            forall|j: int| 0 <= j < i ==> kv[j] != k@,
        decreases keys@.len() - i,
    {
        if same_chars(keys[i].as_slice(), k) {
            assert(kv[i as int] == k@);
            return true;
        }
        i = i + 1;
    }
    false
}

fn join_file(dir: &Option<String>, f: &[char], p: Platform) -> (r: String)
    ensures
        r@ == join_path(opt_view(*dir), f@, p),
{
    match dir {
        None => string_from(f),
        Some(d) => {
            let dc = chars_of(d.as_str());
            if dc.len() == 0 {
                return string_from(f);
            }
            let last = dc[dc.len() - 1];
            let mut s = string_from(dc.as_slice());
            if !(last == '/' || (p == Platform::Windows && last == '\\')) {
                let sep = if p == Platform::Windows {
                    '\\'
                } else {
                    '/'
                };
                crate::text::push_char(&mut s, sep);
            }
            push_chars(&mut s, f);
            s
        },
    }
}

fn url_for(e: &RegistryEntry, h: &HostInfo) -> (r: String)
    ensures
        r@ == entry_url(e@, h@),
{
    match e.download_url_for_current_platform(h.platform, h.tools) {
        Some(u) => u,
        None => match &e.download_url {
            Some(u) => copy_string(u),
            None => String::new(),
        },
    }
}

impl App {
    /// Merge online screensaver entries into the local list: registry entries
    /// not installed are added, the list is sorted by lower-cased name (equal
    /// names keep their order), and the highlight is brought back into the list.
    pub fn merge_registry_entries(&mut self, entries: Vec<RegistryEntry>)
        ensures
            stable_sorted_by_name(
                old(self)@.screensavers + additions(old(self)@.screensavers, entries_view(entries@), old(self)@.host),
                final(self)@.screensavers,
            ),
            final(self)@ == spec_resolve(with_list(old(self)@, final(self)@.screensavers, entries_view(entries@))),
    {
        self.registry_entries = copy_entries(&entries);
        let ghost ss = savers_view(self.screensavers@);
        let ghost es = entries_view(entries@);
        let mut keys: Vec<Vec<char>> = Vec::new();
        let mut i: usize = 0;
        while i < self.screensavers.len()
            invariant
                ss == savers_view(self.screensavers@),
                i <= self.screensavers@.len(),
                keys@.map_values(|v: Vec<char>| v@) == ss.take(i as int).map_values(|s: ScreensaverV| key_of_file(s)),
            decreases self.screensavers@.len() - i,
        {
            let k = file_key(&self.screensavers[i]);
            let ghost k0 = keys@;
            keys.push(k);
            assert(keys@.map_values(|v: Vec<char>| v@) =~= k0.map_values(|v: Vec<char>| v@).push(key_of_file(ss[i as int])));
            assert(ss.take(i + 1).map_values(|s: ScreensaverV| key_of_file(s)) =~= ss.take(i as int).map_values(|s: ScreensaverV| key_of_file(s)).push(key_of_file(ss[i as int])));
            i = i + 1;
        }
        assert(ss.take(ss.len() as int) =~= ss);
        let mut list: Vec<Screensaver> = Vec::new();
        std::mem::swap(&mut list, &mut self.screensavers);
        assert(savers_view(list@) == ss);
        let mut j: usize = 0;
        while j < entries.len()
            invariant
                es == entries_view(entries@),
                j <= entries@.len(),
                keys@.map_values(|v: Vec<char>| v@) == ss.map_values(|s: ScreensaverV| key_of_file(s)),
                savers_view(list@) == ss + additions(ss, es.take(j as int), self.host@),
            decreases entries@.len() - j,
        {
            assert(es.take(j + 1).drop_last() == es.take(j as int));
            assert(es.take(j + 1).last() == entries@[j as int]@);
            let e = &entries[j];
            let url = url_for(e, &self.host);
            let uc = chars_of(url.as_str());
            let seg = last_segment_of(uc.as_slice());
            let segs = string_from(seg.as_slice());
            let fl = to_lowercase(segs.as_str());
            let f = chars_of(fl.as_str());
            if uc.len() > 0 && f.len() > 0 && !has_key(&keys, f.as_slice()) {
                let path = join_file(&self.host.saver_dir, f.as_slice(), self.host.platform);
                let ghost l0 = savers_view(list@);
                list.push(Screensaver { name: copy_string(&e.name), path, download_url: Some(url) });
                assert(savers_view(list@) =~= l0.push(savers_view(list@).last()));
            }
            j = j + 1;
        }
        assert(es.take(entries@.len() as int) =~= es);
        self.screensavers = sort_by_lower_name(list);
        self.resolve_highlight();
    }
}

/// Whether some entry of `acc` has the name `n`, compared without regard to ASCII case.
pub open spec fn has_entry_named(acc: Seq<RegistryEntryV>, n: Seq<char>) -> bool {
    exists|i: int| 0 <= i < acc.len() && ascii_lower_seq(#[trigger] acc[i].name) == ascii_lower_seq(n)
}

/// `acc` followed by the entries of `more` whose name it does not have yet
/// (compared without regard to ASCII case), each checked after the ones before it.
pub open spec fn with_new_entries(acc: Seq<RegistryEntryV>, more: Seq<RegistryEntryV>) -> Seq<RegistryEntryV>
    decreases more.len(),
{
    if more.len() == 0 {
        acc
    } else {
        let a = with_new_entries(acc, more.drop_last());
        if has_entry_named(a, more.last().name) {
            a
        } else {
            a.push(more.last())
        }
    }
}

fn named_in(acc: &Vec<RegistryEntry>, name: &String) -> (b: bool)
    ensures
        b == has_entry_named(entries_view(acc@), name@),
{
    let n = chars_of(name.as_str());
    let mut i: usize = 0;
    while i < acc.len()
        invariant
            i <= acc@.len(),
            n@ == name@,
            forall|j: int| 0 <= j < i ==> ascii_lower_seq(#[trigger] entries_view(acc@)[j].name) != ascii_lower_seq(name@),
        decreases acc@.len() - i,
    {
        let a = chars_of(acc[i].name.as_str());
        if eq_ignore_ascii_case(a.as_slice(), n.as_slice()) {
            assert(entries_view(acc@)[i as int].name == a@);
            return true;
        }
        i = i + 1;
    }
    false
}

/// Gather registry entries from several sources: the entries of `more` whose
/// name is not taken yet (without regard to ASCII case) are added to `acc`.
pub fn add_registry_entries(acc: &mut Vec<RegistryEntry>, more: Vec<RegistryEntry>)
    ensures
        entries_view(final(acc)@) == with_new_entries(entries_view(old(acc)@), entries_view(more@)),
{
    let ghost a0 = entries_view(acc@);
    let ghost mv = entries_view(more@);
    let mut i: usize = 0;
    while i < more.len()
        invariant
            i <= more@.len(),
            mv == entries_view(more@),
            entries_view(acc@) == with_new_entries(a0, mv.take(i as int)),
        decreases more@.len() - i,
    {
        proof {
            assert(mv.take(i + 1).drop_last() == mv.take(i as int));
            assert(mv.take(i + 1).last() == more@[i as int]@);
        }
        if !named_in(acc, &more[i].name) {
            let ghost before = entries_view(acc@);
            acc.push(copy_entry(&more[i]));
            assert(entries_view(acc@) =~= before.push(more@[i as int]@));
        }
        i = i + 1;
    }
    assert(mv.take(more@.len() as int) == mv);
}

} // verus!
