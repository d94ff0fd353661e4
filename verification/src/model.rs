//! The data the picker works on: screensavers, the system-wide and per-user
//! configuration, and the pure facts about screensaver paths.
use vstd::prelude::*;
use crate::layout::{truncate, truncated};
use crate::styled::{fg, line3, span, LineV, StyledLine, TextStyle};
use crate::text::{ascii_lower, chars_of, contains_seq, has_infix, pad_right, pad_right_chars, to_ascii_lower};
use crate::theme::TuiTheme;

verus! {

/// A screensaver the picker lists: an installed file or a registry entry that can be downloaded.
#[derive(Debug)]
pub struct Screensaver {
    /// Friendly name.
    pub name: String,
    /// Where the file is (or will be, once downloaded).
    pub path: String,
    /// Where to download it from, for a registry entry.
    pub download_url: Option<String>,
}

/// The abstract value of a screensaver.
pub struct ScreensaverV {
    pub name: Seq<char>,
    pub path: Seq<char>,
    pub download_url: Option<Seq<char>>,
}

impl View for Screensaver {
    type V = ScreensaverV;

    open spec fn view(&self) -> ScreensaverV {
        ScreensaverV {
            name: self.name@,
            path: self.path@,
            download_url: match self.download_url {
                Some(u) => Some(u@),
                None => None,
            },
        }
    }
}

/// The views of a list of screensavers.
pub open spec fn savers_view(v: Seq<Screensaver>) -> Seq<ScreensaverV> {
    v.map_values(|s: Screensaver| s@)
}

/// The system-wide screensaver settings (what the OS runs, whether, and after how long).
#[derive(Debug)]
pub struct GlobalConfig {
    /// Path of the active screensaver (empty: none).
    pub active_scr: String,
    /// Whether the screensaver is enabled.
    pub active: bool,
    /// Idle time before it starts, in seconds.
    pub timeout: u32,
}

/// The abstract value of the system-wide settings.
pub struct GlobalV {
    pub active_scr: Seq<char>,
    pub active: bool,
    pub timeout: u32,
}

impl View for GlobalConfig {
    type V = GlobalV;

    open spec fn view(&self) -> GlobalV {
        GlobalV { active_scr: self.active_scr@, active: self.active, timeout: self.timeout }
    }
}

impl Default for GlobalConfig {
    /// No active screensaver, disabled, ten minutes.
    fn default() -> (g: GlobalConfig)
        ensures
            g@.active_scr.len() == 0,
            !g.active,
            g.timeout == 600,
    {
        GlobalConfig { active_scr: String::new(), active: false, timeout: 600 }
    }
}

/// The per-user preferences.
#[derive(Debug)]
pub struct LocalConfig {
    /// Paths of the screensavers chosen for the random cycle.
    pub selected_paths: Vec<String>,
    /// File name of the screensaver last applied.
    pub last_selected: Option<String>,
    /// Whether the system is kept awake while the picker runs.
    pub prevent_sleep: bool,
    /// Whether the stock Windows screensavers are hidden.
    pub hide_stock: bool,
    /// Seconds each screensaver of the random cycle runs.
    pub random_cycle_secs: u32,
    /// Registry feeds to fetch the curated list from.
    pub feed_urls: Vec<String>,
}

/// The abstract value of the per-user preferences.
pub struct LocalV {
    pub selected_paths: Seq<Seq<char>>,
    pub last_selected: Option<Seq<char>>,
    pub prevent_sleep: bool,
    pub hide_stock: bool,
    pub random_cycle_secs: u32,
    pub feed_urls: Seq<Seq<char>>,
}

/// The views of a list of strings.
pub open spec fn strs_view(v: Seq<String>) -> Seq<Seq<char>> {
    v.map_values(|s: String| s@)
}

impl View for LocalConfig {
    type V = LocalV;

    open spec fn view(&self) -> LocalV {
        LocalV {
            selected_paths: strs_view(self.selected_paths@),
            last_selected: match self.last_selected {
                Some(s) => Some(s@),
                None => None,
            },
            prevent_sleep: self.prevent_sleep,
            hide_stock: self.hide_stock,
            random_cycle_secs: self.random_cycle_secs,
            feed_urls: strs_view(self.feed_urls@),
        }
    }
}

impl Default for LocalConfig {
    /// Nothing selected, sleep allowed, stock screensavers shown, one minute per screensaver, no feeds.
    fn default() -> (l: LocalConfig)
        ensures
            l@.selected_paths.len() == 0,
            l@.last_selected is None,
            !l.prevent_sleep,
            !l.hide_stock,
            l.random_cycle_secs == 60,
            l@.feed_urls.len() == 0,
    {
        let l = LocalConfig {
            selected_paths: Vec::new(),
            last_selected: None,
            prevent_sleep: false,
            hide_stock: false,
            random_cycle_secs: 60,
            feed_urls: Vec::new(),
        };
        assert(l@.selected_paths =~= Seq::<Seq<char>>::empty());
        assert(l@.feed_urls =~= Seq::<Seq<char>>::empty());
        l
    }
}

/// Whether `c` separates path components (`\` or `/`, as on Windows).
pub open spec fn is_sep(c: char) -> bool {
    c == '\\' || c == '/'
}

/// The text after the last path separator of `p` (all of `p` when it has none).
pub open spec fn last_component(p: Seq<char>) -> Seq<char>
    decreases p.len(),
{
    if p.len() == 0 {
        Seq::empty()
    } else if is_sep(p.last()) {
        Seq::empty()
    } else {
        last_component(p.drop_last()).push(p.last())
    }
}

/// Whether the end of `p` is a separator or a `.` component, which do not
/// count when looking for the file name.
pub open spec fn tail_skippable(p: Seq<char>) -> bool {
    p.len() > 0 && (is_sep(p.last()) || (p.last() == '.' && (p.len() == 1 || is_sep(p[p.len() - 2]))))
}

/// `p` without trailing separators and trailing `.` components.
pub open spec fn strip_tail(p: Seq<char>) -> Seq<char>
    decreases p.len(),
{
    if tail_skippable(p) {
        strip_tail(p.drop_last())
    } else {
        p
    }
}

/// The file name of a path: its last component (trailing separators and `.`
/// components aside), unless there is none or it is `..`.  A drive prefix
/// such as `C:` counts as a name.
pub open spec fn file_name(p: Seq<char>) -> Option<Seq<char>> {
    let c = last_component(strip_tail(p));
    if c.len() == 0 || c == seq!['.', '.'] {
        None
    } else {
        Some(c)
    }
}

fn skippable_at(v: &Vec<char>, k: usize) -> (b: bool)
    requires
        0 < k <= v@.len(),
    ensures
        b == tail_skippable(v@.take(k as int)),
{
    let c = v[k - 1];
    if c == '\\' || c == '/' {
        return true;
    }
    c == '.' && (k == 1 || v[k - 2] == '\\' || v[k - 2] == '/')
}

/// The file name of a path.
pub fn file_name_of(p: &str) -> (r: Option<String>)
    ensures
        match r {
            Some(s) => file_name(p@) == Some(s@),
            None => file_name(p@) is None,
        },
{
    let v = chars_of(p);
    let mut k: usize = v.len();
    assert(v@.take(k as int) == v@);
    while k > 0 && skippable_at(&v, k)
        invariant
            k <= v@.len(),
            strip_tail(v@) == strip_tail(v@.take(k as int)),
        decreases k,
    {
        assert(v@.take(k as int).drop_last() == v@.take(k - 1));
        k = k - 1;
    }
    let ghost t = v@.take(k as int);
    assert(strip_tail(t) == t);
    let mut cur: Vec<char> = Vec::new();
    let mut i: usize = 0;
    while i < k
        invariant
            k <= v@.len(),
            t == v@.take(k as int),
            i <= k,
            cur@ == last_component(v@.take(i as int)),
        decreases k - i,
    {
        assert(v@.take(i + 1).drop_last() == v@.take(i as int));
        if v[i] == '\\' || v[i] == '/' {
            cur = Vec::new();
        } else {
            cur.push(v[i]);
        }
        i = i + 1;
    }
    assert(v@.take(k as int) == t);
    if cur.len() == 0 {
        return None;
    }
    if cur.len() == 2 && cur[0] == '.' && cur[1] == '.' {
        assert(cur@ =~= seq!['.', '.']);
        return None;
    }
    assert(cur@ != seq!['.', '.']) by {
        if cur@.len() == 2 {
            assert(!(cur@[0] == '.' && cur@[1] == '.'));
        }
    }
    Some(crate::text::string_from(cur.as_slice()))
}

/// A path as compared for stock detection: ASCII lower case, `/` read as `\`.
pub open spec fn normalized(p: Seq<char>) -> Seq<char> {
    Seq::new(p.len(), |i: int| if p[i] == '/' { '\\' } else { ascii_lower(p[i]) })
}

/// The directory marker of the stock Windows screensavers.
pub open spec fn system32_marker() -> Seq<char> {
    seq!['\\', 'w', 'i', 'n', 'd', 'o', 'w', 's', '\\', 's', 'y', 's', 't', 'e', 'm', '3', '2', '\\']
}

/// Whether a screensaver path is one of the stock Windows screensavers: it lies
/// under a `Windows\System32` directory (compared without regard to ASCII case).
pub open spec fn is_stock(p: Seq<char>) -> bool {
    has_infix(normalized(p), system32_marker())
}

/// Whether a screensaver path is one of the stock Windows screensavers.
pub fn is_stock_screensaver(path: &str) -> (b: bool)
    ensures
        b == is_stock(path@),
{
    let v = chars_of(path);
    let mut n: Vec<char> = Vec::new();
    let mut i: usize = 0;
    while i < v.len()
        invariant
            i <= v@.len(),
            n@ == normalized(v@.take(i as int)),
        decreases v@.len() - i,
    {
        let c = if v[i] == '/' {
            '\\'
        } else {
            to_ascii_lower(v[i])
        };
        n.push(c);
        i = i + 1;
        assert(n@ =~= normalized(v@.take(i as int)));
    }
    assert(v@.take(v@.len() as int) == v@);
    let marker: Vec<char> = vec![
        '\\',
        'w',
        'i',
        'n',
        'd',
        'o',
        'w',
        's',
        '\\',
        's',
        'y',
        's',
        't',
        'e',
        'm',
        '3',
        '2',
        '\\',
    ];
    assert(marker@ =~= system32_marker());
    contains_seq(n.as_slice(), marker.as_slice())
}

/// The lower-cased form of `s` (what `str::to_lowercase` returns).
pub uninterp spec fn lower(s: Seq<char>) -> Seq<char>;

/// `str::to_lowercase`: Unicode lower-casing of `s`.
#[verifier::external_body]
pub(crate) fn to_lowercase(s: &str) -> (r: String)
    ensures
        r@ == lower(s@),
{
    s.to_lowercase()
}

/// The text of the "active" column of a list row.
pub open spec fn active_text(checked: bool) -> Seq<char> {
    if checked {
        seq!['y', 'e', 's']
    } else {
        seq!['n', 'o']
    }
}

/// The text of the "type" column of a list row.
pub open spec fn type_text(stock: bool) -> Seq<char> {
    if stock {
        seq!['S', 't', 'o', 'c', 'k']
    } else {
        seq!['C', 'u', 's', 't', 'o', 'm']
    }
}

/// The list row of a screensaver: whether it is in the cycle, its name cut to
/// 28 characters in a 30-character column, and whether it is stock or custom.
/// A registry entry not yet on disk shows its name in the accent colour.
pub open spec fn spec_list_row(s: ScreensaverV, checked: bool, present: bool, theme: TuiTheme) -> LineV {
    let online = s.download_url is Some && !present;
    let stock = is_stock(s.path);
    let active_color = if checked { theme.applied } else { theme.text_dim };
    let name_color = if online {
        theme.accent_primary
    } else if checked {
        theme.text_main
    } else {
        theme.text_dim
    };
    let type_color = if stock { theme.text_dim } else { theme.accent_secondary };
    seq![
        (pad_right(active_text(checked), 8) + seq![' ', ' '], fg(active_color)),
        (pad_right(truncated(s.name, 28), 30) + seq![' ', ' '], fg(name_color)),
        (type_text(stock), fg(type_color)),
    ]
}

/// The list row of a screensaver, given whether it is in the cycle and whether its file is on disk.
pub fn list_row(s: &Screensaver, checked: bool, present: bool, theme: &TuiTheme) -> (l: StyledLine)
    ensures
        l@ == spec_list_row(s@, checked, present, *theme),
{
    let online = s.download_url.is_some() && !present;
    let stock = is_stock_screensaver(s.path.as_str());
    let active: Vec<char> = if checked {
        vec!['y', 'e', 's']
    } else {
        vec!['n', 'o']
    };
    assert(active@ =~= active_text(checked));
    let mut a = pad_right_chars(active.as_slice(), 8);
    a.push(' ');
    a.push(' ');
    let active_color = if checked {
        theme.applied
    } else {
        theme.text_dim
    };
    let name = truncate(s.name.as_str(), 28);
    let nc = chars_of(name.as_str());
    let mut n = pad_right_chars(nc.as_slice(), 30);
    n.push(' ');
    n.push(' ');
    let name_color = if online {
        theme.accent_primary
    } else if checked {
        theme.text_main
    } else {
        theme.text_dim
    };
    let t: Vec<char> = if stock {
        vec!['S', 't', 'o', 'c', 'k']
    } else {
        vec!['C', 'u', 's', 't', 'o', 'm']
    };
    assert(t@ =~= type_text(stock));
    let type_color = if stock {
        theme.text_dim
    } else {
        theme.accent_secondary
    };
    let l = line3(
        span(a.as_slice(), TextStyle { fg: Some(active_color), bold: false }),
        span(n.as_slice(), TextStyle { fg: Some(name_color), bold: false }),
        span(t.as_slice(), TextStyle { fg: Some(type_color), bold: false }),
    );
    assert(a@ =~= pad_right(active_text(checked), 8) + seq![' ', ' ']);
    assert(n@ =~= pad_right(truncated(s@.name, 28), 30) + seq![' ', ' ']);
    assert(online == (s@.download_url is Some && !present));
    assert(l@ =~= spec_list_row(s@, checked, present, *theme));
    l
}

/// The decimal digits of `n`.
pub open spec fn decimal(n: nat) -> Seq<char>
    decreases n,
{
    if n < 10 {
        seq![digit(n)]
    } else {
        decimal(n / 10).push(digit(n % 10))
    }
}

/// The digit character of `d` (for `d < 10`).
pub open spec fn digit(d: nat) -> char {
    ((d + 48) as u32) as char
}

/// The decimal representation of `n`.
pub fn decimal_of(n: usize) -> (r: Vec<char>)
    ensures
        r@ == decimal(n as nat),
    decreases n,
{
    if n < 10 {
        let c = ((n as u8) + 48) as char;
        let mut r: Vec<char> = Vec::new();
        r.push(c);
        assert(r@ =~= seq![digit(n as nat)]);
        r
    } else {
        let mut r = decimal_of(n / 10);
        let d = ((n % 10) as u8 + 48) as char;
        r.push(d);
        r
    }
}

} // verus!
