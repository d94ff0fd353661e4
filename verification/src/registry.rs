//! The curated screensaver registry: entries, the choice of a download URL for
//! the running platform, and the pure parts of installing a download (file
//! name, package kind, install hint, xscreensaver descriptor).
//!
//! Registry entries can give a `downloads` map from platform key (`windows`,
//! `linux`, `linux-deb`, `linux-rpm`, `linux-arch`) to URL, or a legacy
//! `download_url`.  On Linux a package (deb/rpm/arch) is preferred when the
//! matching package manager is installed, the raw `linux` binary otherwise.
use vstd::prelude::*;
use crate::text::{
    chars_of, has_prefix, last_segment, last_segment_of, push_str, string_from, trim, trim_chars,
};

verus! {

/// An entry in the curated screensaver online registry.
#[derive(Debug)]
pub struct RegistryEntry {
    /// Friendly name of the screensaver.
    pub name: String,
    /// Author / developer name.
    pub author: String,
    /// Brief description of the screensaver.
    pub description: String,
    /// Legacy single download URL (used as fallback for "windows").
    pub download_url: Option<String>,
    /// Platform-specific download URLs as (platform key, URL) pairs, keys distinct.
    pub downloads: Option<Vec<(String, String)>>,
    /// Current version string.
    pub version: String,
}

/// The abstract value of a registry entry.
pub struct RegistryEntryV {
    pub name: Seq<char>,
    pub author: Seq<char>,
    pub description: Seq<char>,
    pub download_url: Option<Seq<char>>,
    pub downloads: Option<Seq<(Seq<char>, Seq<char>)>>,
    pub version: Seq<char>,
}

/// The view of an optional string.
pub open spec fn opt_view(o: Option<String>) -> Option<Seq<char>> {
    match o {
        Some(s) => Some(s@),
        None => None,
    }
}

/// The view of a list of (key, value) string pairs.
pub open spec fn pairs_view(v: Seq<(String, String)>) -> Seq<(Seq<char>, Seq<char>)> {
    v.map_values(|p: (String, String)| (p.0@, p.1@))
}

impl View for RegistryEntry {
    type V = RegistryEntryV;

    open spec fn view(&self) -> RegistryEntryV {
        RegistryEntryV {
            name: self.name@,
            author: self.author@,
            description: self.description@,
            download_url: opt_view(self.download_url),
            downloads: match self.downloads {
                Some(m) => Some(pairs_view(m@)),
                None => None,
            },
            version: self.version@,
        }
    }
}

/// The operating systems the downloads map distinguishes.
#[derive(Debug, Clone, Copy, PartialEq, Eq, Structural)]
pub enum Platform {
    Windows,
    Linux,
    MacOs,
    Unknown,
}

/// Which package managers are installed (what probing for their commands found).
#[derive(Debug, Clone, Copy, PartialEq, Eq, Structural)]
pub struct PackageTools {
    /// `dpkg`, `apt` or `apt-get` is available.
    pub deb: bool,
    /// `rpm`, `dnf`, `yum` or `zypper` is available.
    pub rpm: bool,
    /// `pacman` is available.
    pub pacman: bool,
}

/// The key of a platform in the downloads map.
pub open spec fn platform_key(p: Platform) -> Seq<char> {
    match p {
        Platform::Windows => seq!['w', 'i', 'n', 'd', 'o', 'w', 's'],
        Platform::Linux => seq!['l', 'i', 'n', 'u', 'x'],
        Platform::MacOs => seq!['m', 'a', 'c', 'o', 's'],
        Platform::Unknown => seq!['u', 'n', 'k', 'n', 'o', 'w', 'n'],
    }
}

/// The downloads key of the raw Linux binary.
pub open spec fn key_linux() -> Seq<char> {
    seq!['l', 'i', 'n', 'u', 'x']
}

/// The downloads key of the Debian package.
pub open spec fn key_deb() -> Seq<char> {
    seq!['l', 'i', 'n', 'u', 'x', '-', 'd', 'e', 'b']
}

/// The downloads key of the RPM package.
pub open spec fn key_rpm() -> Seq<char> {
    seq!['l', 'i', 'n', 'u', 'x', '-', 'r', 'p', 'm']
}

/// The downloads key of the Arch package.
pub open spec fn key_arch() -> Seq<char> {
    seq!['l', 'i', 'n', 'u', 'x', '-', 'a', 'r', 'c', 'h']
}

/// The platform named by an operating-system name (`std::env::consts::OS`).
pub open spec fn platform_of(os: Seq<char>) -> Platform {
    if os == platform_key(Platform::Windows) {
        Platform::Windows
    } else if os == platform_key(Platform::Linux) {
        Platform::Linux
    } else if os == platform_key(Platform::MacOs) {
        Platform::MacOs
    } else {
        Platform::Unknown
    }
}

pub(crate) fn same_chars(a: &[char], b: &[char]) -> (r: bool)
    ensures
        r == (a@ == b@),
{
    if a.len() != b.len() {
        return false;
    }
    let mut i: usize = 0;
    while i < a.len()
        invariant
            a@.len() == b@.len(),
            i <= a@.len(),
            forall|j: int| 0 <= j < i ==> a@[j] == b@[j],
        decreases a@.len() - i,
    {
        if a[i] != b[i] {
            return false;
        }
        i = i + 1;
    }
    assert(a@ =~= b@);
    true
}

fn key_chars(p: Platform) -> (v: Vec<char>)
    ensures
        v@ == platform_key(p),
{
    let v: Vec<char> = match p {
        Platform::Windows => vec!['w', 'i', 'n', 'd', 'o', 'w', 's'],
        Platform::Linux => vec!['l', 'i', 'n', 'u', 'x'],
        Platform::MacOs => vec!['m', 'a', 'c', 'o', 's'],
        Platform::Unknown => vec!['u', 'n', 'k', 'n', 'o', 'w', 'n'],
    };
    assert(v@ =~= platform_key(p));
    v
}

/// The platform of the operating system named `os` (`std::env::consts::OS`).
pub fn current_platform(os: &str) -> (p: Platform)
    ensures
        p == platform_of(os@),
{
    let o = chars_of(os);
    if same_chars(o.as_slice(), key_chars(Platform::Windows).as_slice()) {
        Platform::Windows
    } else if same_chars(o.as_slice(), key_chars(Platform::Linux).as_slice()) {
        Platform::Linux
    } else if same_chars(o.as_slice(), key_chars(Platform::MacOs).as_slice()) {
        Platform::MacOs
    } else {
        Platform::Unknown
    }
}

/// The value stored under `k` (the first pair with that key).
pub open spec fn lookup(m: Seq<(Seq<char>, Seq<char>)>, k: Seq<char>) -> Option<Seq<char>>
    decreases m.len(),
{
    if m.len() == 0 {
        None
    } else if m[0].0 == k {
        Some(m[0].1)
    } else {
        lookup(m.drop_first(), k)
    }
}

proof fn lemma_lookup_skip(m: Seq<(Seq<char>, Seq<char>)>, k: Seq<char>, i: int)
    requires
        0 <= i <= m.len(),
        forall|j: int| 0 <= j < i ==> (#[trigger] m[j]).0 != k,
    ensures
        lookup(m, k) == lookup(m.skip(i), k),
    decreases i,
{
    if i > 0 {
        assert(m[0].0 != k);
        let t = m.drop_first();
        assert forall|j: int| 0 <= j < i - 1 implies (#[trigger] t[j]).0 != k by {
            assert(t[j] == m[j + 1]);
        }
        lemma_lookup_skip(t, k, i - 1);
        assert(t.skip(i - 1) == m.skip(i));
    } else {
        assert(m.skip(0) =~= m);
    }
}

fn get(m: &Vec<(String, String)>, k: &[char]) -> (r: Option<String>)
    ensures
        opt_view(r) == lookup(pairs_view(m@), k@),
{
    let ghost pv = pairs_view(m@);
    let mut i: usize = 0;
    while i < m.len()
        invariant
            pv == pairs_view(m@),
            i <= m@.len(),
            forall|j: int| 0 <= j < i ==> (#[trigger] pv[j]).0 != k@,
        decreases m@.len() - i,
    {
        let kc = chars_of(m[i].0.as_str());
        if same_chars(kc.as_slice(), k) {
            proof {
                lemma_lookup_skip(pv, k@, i as int);
                assert(pv.skip(i as int)[0] == pv[i as int]);
            }
            return Some(m[i].1.clone());
        }
        i = i + 1;
    }
    proof {
        lemma_lookup_skip(pv, k@, m@.len() as int);
    }
    None
}

/// Whether the map has the key `k`.
pub open spec fn has_key(m: Seq<(Seq<char>, Seq<char>)>, k: Seq<char>) -> bool {
    lookup(m, k) is Some
}

/// The Linux package variant to fetch: a deb, rpm or arch package when its
/// package manager is installed and the map offers it, else the raw `linux` binary.
pub open spec fn spec_best_linux_variant(m: Seq<(Seq<char>, Seq<char>)>, tools: PackageTools) -> Option<Seq<char>> {
    if tools.deb && has_key(m, key_deb()) {
        Some(key_deb())
    } else if tools.rpm && has_key(m, key_rpm()) {
        Some(key_rpm())
    } else if tools.pacman && has_key(m, key_arch()) {
        Some(key_arch())
    } else if has_key(m, key_linux()) {
        Some(key_linux())
    } else {
        None
    }
}

/// The download URL for `platform`: from the downloads map (on Linux the best
/// package variant, which falls back to the raw `linux` binary; elsewhere the
/// platform's own key), and the legacy `download_url` (the Windows fallback)
/// when the map gives nothing.  A Linux binary is never offered to another platform.
pub open spec fn spec_download_url(e: RegistryEntryV, platform: Platform, tools: PackageTools) -> Option<Seq<char>> {
    match e.downloads {
        Some(m) => {
            if platform == Platform::Linux && spec_best_linux_variant(m, tools) is Some {
                lookup(m, spec_best_linux_variant(m, tools)->0)
            } else if platform != Platform::Linux && has_key(m, platform_key(platform)) {
                lookup(m, platform_key(platform))
            } else {
                e.download_url
            }
        },
        None => e.download_url,
    }
}

/// On Linux, pick the best package type available in the downloads map.
pub fn best_linux_variant(map: &Vec<(String, String)>, tools: PackageTools) -> (r: Option<String>)
    ensures
        opt_view(r) == spec_best_linux_variant(pairs_view(map@), tools),
{
    let deb: Vec<char> = vec!['l', 'i', 'n', 'u', 'x', '-', 'd', 'e', 'b'];
    let rpm: Vec<char> = vec!['l', 'i', 'n', 'u', 'x', '-', 'r', 'p', 'm'];
    let arch: Vec<char> = vec!['l', 'i', 'n', 'u', 'x', '-', 'a', 'r', 'c', 'h'];
    let linux: Vec<char> = vec!['l', 'i', 'n', 'u', 'x'];
    assert(deb@ =~= key_deb());
    assert(rpm@ =~= key_rpm());
    assert(arch@ =~= key_arch());
    assert(linux@ =~= key_linux());
    if tools.deb && get(map, deb.as_slice()).is_some() {
        return Some(string_from(deb.as_slice()));
    }
    if tools.rpm && get(map, rpm.as_slice()).is_some() {
        return Some(string_from(rpm.as_slice()));
    }
    if tools.pacman && get(map, arch.as_slice()).is_some() {
        return Some(string_from(arch.as_slice()));
    }
    if get(map, linux.as_slice()).is_some() {
        return Some(string_from(linux.as_slice()));
    }
    None
}

fn clone_opt(o: &Option<String>) -> (r: Option<String>)
    ensures
        opt_view(r) == opt_view(*o),
{
    match o {
        Some(s) => Some(s.clone()),
        None => None,
    }
}

impl RegistryEntry {
    /// Returns the best download URL for the given platform and installed package managers.
    pub fn download_url_for_current_platform(&self, platform: Platform, tools: PackageTools) -> (r: Option<String>)
        ensures
            opt_view(r) == spec_download_url(self@, platform, tools),
    {
        if let Some(map) = &self.downloads {
            if platform == Platform::Linux {
                if let Some(key) = best_linux_variant(map, tools) {
                    let kc = chars_of(key.as_str());
                    let url = get(map, kc.as_slice());
                    if url.is_some() {
                        return url;
                    }
                }
            } else {
                let pk = key_chars(platform);
                let url = get(map, pk.as_slice());
                if url.is_some() {
                    return url;
                }
            }
        }
        clone_opt(&self.download_url)
    }
}

/// The descriptor up to the program name.
pub open spec fn xml_head() -> Seq<char> {
    "<?xml version=\"1.0\" encoding=\"UTF-8\"?>\n<screensaver name=\""@
}

/// The descriptor between the program name and the label.
pub open spec fn xml_label() -> Seq<char> {
    "\" _label=\""@
}

/// The descriptor between the label and the description.
pub open spec fn xml_body() -> Seq<char> {
    "\" >\n  <command>  %  -root </command>\n  <string id=\"description\"\n   _label=\"Description\"\n   _description=\"The description of this screensaver.\"\n   >"@
}

/// The end of the descriptor.
pub open spec fn xml_tail() -> Seq<char> {
    "</string>\n</screensaver>\n"@
}

/// Generates a minimal xscreensaver .xml descriptor for the given saver.
pub fn generate_xscreensaver_xml(name: &str, label: &str, description: &str) -> (r: String)
    ensures
        r@ == xml_head() + name@ + xml_label() + label@ + xml_body() + description@ + xml_tail(),
{
    let mut s = String::new();
    push_str(&mut s, "<?xml version=\"1.0\" encoding=\"UTF-8\"?>\n<screensaver name=\"");
    push_str(&mut s, name);
    push_str(&mut s, "\" _label=\"");
    push_str(&mut s, label);
    push_str(
        &mut s,
        "\" >\n  <command>  %  -root </command>\n  <string id=\"description\"\n   _label=\"Description\"\n   _description=\"The description of this screensaver.\"\n   >",
    );
    push_str(&mut s, description);
    push_str(&mut s, "</string>\n</screensaver>\n");
    s
}

/// The file name a download is stored under: the URL's last `/`-separated part.
pub fn download_file_name(url: &str) -> (r: String)
    ensures
        r@ == last_segment(url@),
{
    let u = chars_of(url);
    let f = last_segment_of(u.as_slice());
    string_from(f.as_slice())
}

/// The kind of file a download is, by its (lower-cased) name.
#[derive(Debug, Clone, Copy, PartialEq, Eq, Structural)]
pub enum PackageKind {
    Deb,
    Rpm,
    Arch,
    Binary,
}

/// Whether `s` ends with `x`.
pub open spec fn has_suffix(s: Seq<char>, x: Seq<char>) -> bool {
    x.len() <= s.len() && s.skip(s.len() - x.len()) == x
}

/// The package kind of a lower-cased file path: `.deb`, `.rpm`, `.pkg.tar.zst`
/// or `.zst` (Arch), anything else a raw binary.
pub open spec fn spec_package_kind(lower_path: Seq<char>) -> PackageKind {
    if has_suffix(lower_path, seq!['.', 'd', 'e', 'b']) {
        PackageKind::Deb
    } else if has_suffix(lower_path, seq!['.', 'r', 'p', 'm']) {
        PackageKind::Rpm
    } else if has_suffix(lower_path, seq!['.', 'z', 's', 't']) {
        PackageKind::Arch
    } else {
        PackageKind::Binary
    }
}

fn ends_with(s: &[char], x: &[char]) -> (r: bool)
    ensures
        r == has_suffix(s@, x@),
{
    if x.len() > s.len() {
        return false;
    }
    let n = s.len();
    let off = n - x.len();
    let mut i: usize = 0;
    while i < x.len()
        invariant
            n == s@.len(),
            x@.len() <= n,
            off == s@.len() - x@.len(),
            i <= x@.len(),
            forall|j: int| 0 <= j < i ==> s@[off + j] == x@[j],
        decreases x@.len() - i,
    {
        if s[off + i] != x[i] {
            assert(s@.skip(off as int)[i as int] != x@[i as int]);
            return false;
        }
        i = i + 1;
    }
    assert(s@.skip(off as int) =~= x@);
    true
}

/// The package kind of a downloaded file, from its lower-cased path.
pub fn package_kind(lower_path: &str) -> (k: PackageKind)
    ensures
        k == spec_package_kind(lower_path@),
{
    let p = chars_of(lower_path);
    let deb: Vec<char> = vec!['.', 'd', 'e', 'b'];
    let rpm: Vec<char> = vec!['.', 'r', 'p', 'm'];
    let zst: Vec<char> = vec!['.', 'z', 's', 't'];
    assert(deb@ =~= seq!['.', 'd', 'e', 'b']);
    assert(rpm@ =~= seq!['.', 'r', 'p', 'm']);
    assert(zst@ =~= seq!['.', 'z', 's', 't']);
    if ends_with(p.as_slice(), deb.as_slice()) {
        PackageKind::Deb
    } else if ends_with(p.as_slice(), rpm.as_slice()) {
        PackageKind::Rpm
    } else if ends_with(p.as_slice(), zst.as_slice()) {
        PackageKind::Arch
    } else {
        PackageKind::Binary
    }
}

/// The install instruction shown for a downloaded package at `path` (with file
/// name `file_name`); none for a raw binary.
pub open spec fn spec_install_hint(kind: PackageKind, path: Seq<char>, file_name: Seq<char>) -> Option<Seq<char>> {
    match kind {
        PackageKind::Deb => Some(
            "sudo dpkg -i \""@ + path + "\"\n# or: sudo apt install ./"@ + file_name,
        ),
        PackageKind::Rpm => Some(
            "sudo rpm -i \""@ + path + "\"\n# or: sudo dnf install \""@ + path + "\""@,
        ),
        PackageKind::Arch => Some("sudo pacman -U \""@ + path + "\"\n# (Arch Linux package)"@),
        PackageKind::Binary => None,
    }
}

/// The install instruction for a downloaded package.
pub fn install_hint(kind: PackageKind, path: &str, file_name: &str) -> (r: Option<String>)
    ensures
        opt_view(r) == spec_install_hint(kind, path@, file_name@),
{
    match kind {
        PackageKind::Deb => {
            let mut s = String::new();
            push_str(&mut s, "sudo dpkg -i \"");
            push_str(&mut s, path);
            push_str(&mut s, "\"\n# or: sudo apt install ./");
            push_str(&mut s, file_name);
            Some(s)
        },
        PackageKind::Rpm => {
            let mut s = String::new();
            push_str(&mut s, "sudo rpm -i \"");
            push_str(&mut s, path);
            push_str(&mut s, "\"\n# or: sudo dnf install \"");
            push_str(&mut s, path);
            push_str(&mut s, "\"");
            Some(s)
        },
        PackageKind::Arch => {
            let mut s = String::new();
            push_str(&mut s, "sudo pacman -U \"");
            push_str(&mut s, path);
            push_str(&mut s, "\"\n# (Arch Linux package)");
            Some(s)
        },
        PackageKind::Binary => None,
    }
}

/// The description written into the xscreensaver descriptor: the entry's own,
/// or a generic one built from its name when it is blank.
pub open spec fn spec_descriptor_text(name: Seq<char>, description: Seq<char>) -> Seq<char> {
    if trim(description).len() == 0 {
        name + " (dynamic live OS/kernel)"@
    } else {
        description
    }
}

/// The description written into the xscreensaver descriptor.
pub fn descriptor_text(name: &str, description: &str) -> (r: String)
    ensures
        r@ == spec_descriptor_text(name@, description@),
{
    let d = chars_of(description);
    let t = trim_chars(d.as_slice());
    if t.len() == 0 {
        let mut s = String::new();
        push_str(&mut s, name);
        push_str(&mut s, " (dynamic live OS/kernel)");
        s
    } else {
        string_from(d.as_slice())
    }
}

/// A value found under `k` is stored in the map under `k`.
proof fn lemma_lookup_listed(m: Seq<(Seq<char>, Seq<char>)>, k: Seq<char>)
    ensures
        lookup(m, k) is Some ==> exists|i: int| 0 <= i < m.len() && (#[trigger] m[i]).0 == k && m[i].1 == lookup(m, k)->0,
    decreases m.len(),
{
    if m.len() > 0 && m[0].0 != k {
        let t = m.drop_first();
        lemma_lookup_listed(t, k);
        if lookup(t, k) is Some {
            let i = choose|i: int| 0 <= i < t.len() && (#[trigger] t[i]).0 == k && t[i].1 == lookup(t, k)->0;
            assert(m[i + 1] == t[i]);
        }
    } else if m.len() > 0 {
        assert(m[0].0 == k);
    }
}

/// The download URL chosen for any platform is one the entry lists: a value
/// of its downloads map, or its legacy `download_url`.
pub proof fn law_download_url_listed(e: RegistryEntryV, platform: Platform, tools: PackageTools)
    ensures
        spec_download_url(e, platform, tools) is Some ==> {
            let u = spec_download_url(e, platform, tools)->0;
            ||| e.download_url == Some(u)
            ||| (e.downloads is Some && exists|i: int|
                0 <= i < e.downloads->0.len() && (#[trigger] e.downloads->0[i]).1 == u)
        },
{
    if let Some(m) = e.downloads {
        lemma_lookup_listed(m, key_linux());
        lemma_lookup_listed(m, platform_key(platform));
        if spec_best_linux_variant(m, tools) is Some {
            lemma_lookup_listed(m, spec_best_linux_variant(m, tools)->0);
        }
    }
}

/// Whether `c` is alphabetic or numeric in Unicode's sense (what `char::is_alphanumeric` answers).
pub uninterp spec fn alnum(c: char) -> bool;

/// `char::is_alphanumeric`.
#[verifier::external_body]
fn is_alphanumeric(c: char) -> (b: bool)
    ensures
        b == alnum(c),
{
    c.is_alphanumeric()
}

/// Whether `c` is kept in an xscreensaver program name.
pub open spec fn name_char(c: char) -> bool {
    alnum(c) || c == '-' || c == '_'
}

/// The xscreensaver program name of a screensaver: its name lower-cased, with
/// everything but letters, digits, `-` and `_` left out.
pub open spec fn saver_program_name(name: Seq<char>) -> Seq<char> {
    crate::model::lower(name).filter(|c: char| name_char(c))
}

/// The xscreensaver program name of the screensaver `name`.
pub fn saver_name(name: &str) -> (r: String)
    ensures
        r@ == saver_program_name(name@),
{
    let l = crate::model::to_lowercase(name);
    let v = chars_of(l.as_str());
    let ghost f = |c: char| name_char(c);
    let mut out: Vec<char> = Vec::new();
    let mut i: usize = 0;
    while i < v.len()
        invariant
            i <= v@.len(),
            v@ == crate::model::lower(name@),
            f == (|c: char| name_char(c)),
            out@ == v@.take(i as int).filter(f),
        decreases v@.len() - i,
    {
        let c = v[i];
        let a = is_alphanumeric(c);
        let keep = a || c == '-' || c == '_';
        assert(keep == name_char(c));
        proof {
            assert(v@.take(i + 1).drop_last() == v@.take(i as int));
            v@.take(i as int).lemma_filter_push(c, f);
            assert(v@.take(i + 1) == v@.take(i as int).push(c));
            assert(keep == f(c));
        }
        if keep {
            out.push(c);
        }
        i = i + 1;
    }
    assert(v@.take(v@.len() as int) == v@);
    string_from(out.as_slice())
}

/// The status of a background screensaver file download.
#[derive(Debug, Clone)]
pub enum DownloadStatus {
    /// File download is currently in progress.
    Downloading,
    /// File download finished successfully.
    Success,
    /// An error occurred during download.
    Error(String),
}

/// Outside Linux, an entry whose downloads map has no key for the platform
/// is downloaded from its legacy `download_url`, never from a Linux entry.
pub proof fn law_non_linux_fallback(e: RegistryEntryV, platform: Platform, tools: PackageTools)
    requires
        platform != Platform::Linux,
        e.downloads is None || !has_key(e.downloads->0, platform_key(platform)),
    ensures
        spec_download_url(e, platform, tools) == e.download_url,
{
}

} // verus!
