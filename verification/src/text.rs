//! Character-level text helpers shared by the parsers and formatters.
//!
//! Strings are modelled by their view, a `Seq<char>`.  The specifications here
//! describe std's splitting and trimming rules (`str::lines`, `str::split`,
//! `str::split_whitespace`, `str::trim`) over that view.
use vstd::prelude::*;

verus! {

/// Whether `c` has the Unicode `White_Space` property (what `char::is_whitespace` tests).
pub open spec fn is_ws(c: char) -> bool {
    let u = c as u32;
    ||| (0x9 <= u && u <= 0xD)
    ||| u == 0x20
    ||| u == 0x85
    ||| u == 0xA0
    ||| u == 0x1680
    ||| (0x2000 <= u && u <= 0x200A)
    ||| u == 0x2028
    ||| u == 0x2029
    ||| u == 0x202F
    ||| u == 0x205F
    ||| u == 0x3000
}

/// Number of bytes of `c` in UTF-8.
pub open spec fn char_width(c: char) -> nat {
    let u = c as u32;
    if u < 0x80 {
        1
    } else if u < 0x800 {
        2
    } else if u < 0x10000 {
        3
    } else {
        4
    }
}

/// Number of bytes of `s` in UTF-8 (what `str::len` returns).
pub open spec fn utf8_len(s: Seq<char>) -> nat
    decreases s.len(),
{
    if s.len() == 0 {
        0
    } else {
        utf8_len(s.drop_last()) + char_width(s.last())
    }
}

/// ASCII lower-casing of one character (`char::to_ascii_lowercase`).
pub open spec fn ascii_lower(c: char) -> char {
    if 'A' <= c && c <= 'Z' {
        ((c as u32) + 32) as char
    } else {
        c
    }
}

/// `s` with every ASCII capital replaced by its small letter.
pub open spec fn ascii_lower_seq(s: Seq<char>) -> Seq<char> {
    Seq::new(s.len(), |i: int| ascii_lower(s[i]))
}

/// `s` without its leading whitespace.
pub open spec fn trim_start(s: Seq<char>) -> Seq<char>
    decreases s.len(),
{
    if s.len() > 0 && is_ws(s[0]) {
        trim_start(s.drop_first())
    } else {
        s
    }
}

/// `s` without its trailing whitespace.
pub open spec fn trim_end(s: Seq<char>) -> Seq<char>
    decreases s.len(),
{
    if s.len() > 0 && is_ws(s.last()) {
        trim_end(s.drop_last())
    } else {
        s
    }
}

/// `s` without leading and trailing whitespace (`str::trim`).
pub open spec fn trim(s: Seq<char>) -> Seq<char> {
    trim_end(trim_start(s))
}

/// Whether `p` is a prefix of `s`.
pub open spec fn has_prefix(s: Seq<char>, p: Seq<char>) -> bool {
    p.len() <= s.len() && s.take(p.len() as int) == p
}

/// Whether `p` occurs somewhere in `s`.
pub open spec fn has_infix(s: Seq<char>, p: Seq<char>) -> bool {
    exists|i: int| 0 <= i && i + p.len() <= s.len() && #[trigger] s.subrange(i, i + p.len()) == p
}

/// `s` with one trailing carriage return removed.
pub open spec fn strip_cr(s: Seq<char>) -> Seq<char> {
    if s.len() > 0 && s.last() == '\r' {
        s.drop_last()
    } else {
        s
    }
}

/// Scanning state of `str::lines` over `s`: the finished lines and the open one.
pub open spec fn lines_scan(s: Seq<char>) -> (Seq<Seq<char>>, Seq<char>)
    decreases s.len(),
{
    if s.len() == 0 {
        (Seq::empty(), Seq::empty())
    } else {
        let (done, cur) = lines_scan(s.drop_last());
        if s.last() == '\n' {
            (done.push(strip_cr(cur)), Seq::empty())
        } else {
            (done, cur.push(s.last()))
        }
    }
}

/// The lines of `s` as `str::lines` yields them: split at `'\n'`, a `'\r'` just
/// before the `'\n'` dropped, and no empty last line after a final `'\n'`.
pub open spec fn lines_of(s: Seq<char>) -> Seq<Seq<char>> {
    let (done, cur) = lines_scan(s);
    if cur.len() == 0 {
        done
    } else {
        done.push(cur)
    }
}

/// Scanning state of `str::split(sep)` over `s`.
pub open spec fn split_scan(s: Seq<char>, sep: char) -> (Seq<Seq<char>>, Seq<char>)
    decreases s.len(),
{
    if s.len() == 0 {
        (Seq::empty(), Seq::empty())
    } else {
        let (done, cur) = split_scan(s.drop_last(), sep);
        if s.last() == sep {
            (done.push(cur), Seq::empty())
        } else {
            (done, cur.push(s.last()))
        }
    }
}

/// The pieces of `s` between occurrences of `sep` (`str::split`), empty pieces included.
pub open spec fn split_on(s: Seq<char>, sep: char) -> Seq<Seq<char>> {
    let (done, cur) = split_scan(s, sep);
    done.push(cur)
}

/// Scanning state of `str::split_whitespace` over `s`.
pub open spec fn words_scan(s: Seq<char>) -> (Seq<Seq<char>>, Seq<char>)
    decreases s.len(),
{
    if s.len() == 0 {
        (Seq::empty(), Seq::empty())
    } else {
        let (done, cur) = words_scan(s.drop_last());
        if is_ws(s.last()) {
            if cur.len() > 0 {
                (done.push(cur), Seq::empty())
            } else {
                (done, cur)
            }
        } else {
            (done, cur.push(s.last()))
        }
    }
}

/// The maximal runs of non-whitespace characters of `s` (`str::split_whitespace`).
pub open spec fn words_of(s: Seq<char>) -> Seq<Seq<char>> {
    let (done, cur) = words_scan(s);
    if cur.len() > 0 {
        done.push(cur)
    } else {
        done
    }
}

/// `s` padded with spaces on the right to `width` characters (`format!("{:<width$}")`).
pub open spec fn pad_right(s: Seq<char>, width: nat) -> Seq<char> {
    if s.len() >= width {
        s
    } else {
        s + Seq::new((width - s.len()) as nat, |i: int| ' ')
    }
}

/// `n` spaces.
pub open spec fn spaces(n: nat) -> Seq<char> {
    Seq::new(n, |i: int| ' ')
}

/// Appends one character to a string: `String::push`.
#[verifier::external_body]
pub(crate) fn push_char(s: &mut String, c: char)
    ensures
        final(s)@ == old(s)@.push(c),
{
    s.push(c);
}

/// The characters of `s`, in order.
pub fn chars_of(s: &str) -> (v: Vec<char>)
    ensures
        v@ == s@,
{
    let mut v: Vec<char> = Vec::new();
    for c in it: s.chars()
        invariant
            v@ == it.seq().take(it.index() as int),
    {
        v.push(c);
    }
    v
}

/// A string made of the characters of `v`.
pub fn string_from(v: &[char]) -> (s: String)
    ensures
        s@ == v@,
{
    let mut s = String::new();
    let mut i: usize = 0;
    while i < v.len()
        invariant
            i <= v@.len(),
            s@ == v@.take(i as int),
        decreases v@.len() - i,
    {
        push_char(&mut s, v[i]);
        i = i + 1;
        assert(v@.take(i as int) == v@.take(i - 1).push(v@[i - 1]));
    }
    assert(v@.take(v@.len() as int) == v@);
    s
}

/// Appends the characters of `v` to `s`.
pub fn push_chars(s: &mut String, v: &[char])
    ensures
        final(s)@ == old(s)@ + v@,
{
    let mut i: usize = 0;
    while i < v.len()
        invariant
            i <= v@.len(),
            s@ == old(s)@ + v@.take(i as int),
        decreases v@.len() - i,
    {
        push_char(s, v[i]);
        i = i + 1;
        assert(old(s)@ + v@.take(i as int) == (old(s)@ + v@.take(i - 1)).push(v@[i - 1]));
    }
    assert(v@.take(v@.len() as int) == v@);
}

/// Appends `t` to `s`.
pub fn push_str(s: &mut String, t: &str)
    ensures
        final(s)@ == old(s)@ + t@,
{
    let v = chars_of(t);
    push_chars(s, v.as_slice());
}

/// `a` followed by `b`, as a new string.
pub fn concat(a: &str, b: &str) -> (s: String)
    ensures
        s@ == a@ + b@,
{
    let mut s = String::new();
    push_str(&mut s, a);
    push_str(&mut s, b);
    assert(s@ == a@ + b@);
    s
}

/// Whether `c` is whitespace (`char::is_whitespace`).
pub fn is_whitespace(c: char) -> (b: bool)
    ensures
        b == is_ws(c),
{
    let u = c as u32;
    (0x9 <= u && u <= 0xD) || u == 0x20 || u == 0x85 || u == 0xA0 || u == 0x1680 || (0x2000 <= u
        && u <= 0x200A) || u == 0x2028 || u == 0x2029 || u == 0x202F || u == 0x205F || u == 0x3000
}

/// Number of UTF-8 bytes of `c` (`char::len_utf8`).
pub fn width_of(c: char) -> (n: u128)
    ensures
        n == char_width(c),
{
    let u = c as u32;
    if u < 0x80 {
        1
    } else if u < 0x800 {
        2
    } else if u < 0x10000 {
        3
    } else {
        4
    }
}

/// Number of UTF-8 bytes of `v`.
pub fn utf8_len_of(v: &[char]) -> (n: u128)
    ensures
        n == utf8_len(v@),
        n <= 4 * v@.len(),
{
    let mut n: u128 = 0;
    let mut i: usize = 0;
    while i < v.len()
        invariant
            i <= v@.len(),
            n == utf8_len(v@.take(i as int)),
            n <= 4 * i,
        decreases v@.len() - i,
    {
        assert(v@.take(i + 1).drop_last() == v@.take(i as int));
        n = n + width_of(v[i]);
        i = i + 1;
    }
    assert(v@.take(v@.len() as int) == v@);
    n
}

/// ASCII lower-casing of one character.
pub fn to_ascii_lower(c: char) -> (r: char)
    ensures
        r == ascii_lower(c),
{
    if 'A' <= c && c <= 'Z' {
        let u = (c as u32) + 32;
        assert(u <= 0x7f);
        u as u8 as char
    } else {
        c
    }
}

/// Case-insensitive comparison of ASCII letters (`str::eq_ignore_ascii_case`).
pub fn eq_ignore_ascii_case(a: &[char], b: &[char]) -> (r: bool)
    ensures
        r == (ascii_lower_seq(a@) == ascii_lower_seq(b@)),
{
    if a.len() != b.len() {
        assert(ascii_lower_seq(a@).len() != ascii_lower_seq(b@).len());
        return false;
    }
    let mut i: usize = 0;
    while i < a.len()
        invariant
            a@.len() == b@.len(),
            i <= a@.len(),
            forall|j: int| 0 <= j < i ==> ascii_lower(a@[j]) == ascii_lower(b@[j]),
        decreases a@.len() - i,
    {
        if to_ascii_lower(a[i]) != to_ascii_lower(b[i]) {
            assert(ascii_lower_seq(a@)[i as int] != ascii_lower_seq(b@)[i as int]);
            return false;
        }
        i = i + 1;
    }
    assert(ascii_lower_seq(a@) =~= ascii_lower_seq(b@));
    true
}

/// Whether `p` is a prefix of `s`.
pub fn starts_with(s: &[char], p: &[char]) -> (r: bool)
    ensures
        r == has_prefix(s@, p@),
{
    if p.len() > s.len() {
        return false;
    }
    let mut i: usize = 0;
    while i < p.len()
        invariant
            p@.len() <= s@.len(),
            i <= p@.len(),
            forall|j: int| 0 <= j < i ==> s@[j] == p@[j],
        decreases p@.len() - i,
    {
        if s[i] != p[i] {
            assert(s@.take(p@.len() as int)[i as int] != p@[i as int]);
            return false;
        }
        i = i + 1;
    }
    assert(s@.take(p@.len() as int) =~= p@);
    true
}

/// Whether `p` occurs in `s`.
pub fn contains_seq(s: &[char], p: &[char]) -> (r: bool)
    ensures
        r == has_infix(s@, p@),
{
    if p.len() > s.len() {
        assert(!has_infix(s@, p@));
        return false;
    }
    if p.len() == 0 {
        assert(s@.subrange(0, 0 + p@.len() as int) =~= p@);
        return true;
    }
    let last = s.len() - p.len();
    let mut i: usize = 0;
    while i <= last
        invariant
            last == s@.len() - p@.len(),
            0 < p@.len() <= s@.len(),
            s@.len() <= usize::MAX,
            i <= last + 1,
            forall|k: int| 0 <= k < i ==> #[trigger] s@.subrange(k, k + p@.len()) != p@,
        decreases last + 1 - i,
    {
        let mut j: usize = 0;
        let mut same = true;
        while j < p.len()
            invariant
                i <= last,
                last == s@.len() - p@.len(),
                p@.len() <= s@.len(),
                s@.len() <= usize::MAX,
                j <= p@.len(),
                same == (forall|m: int| 0 <= m < j ==> s@[i + m] == p@[m]),
            decreases p@.len() - j,
        {
            if s[i + j] != p[j] {
                same = false;
            }
            j = j + 1;
        }
        if same {
            assert(s@.subrange(i as int, i + p@.len()) =~= p@);
            return true;
        }
        assert(s@.subrange(i as int, i + p@.len())[j - 1] != p@[j - 1] || s@.subrange(
            i as int,
            i + p@.len(),
        ) != p@) by {
            let m = choose|m: int| 0 <= m < p@.len() && s@[i + m] != p@[m];
            assert(s@.subrange(i as int, i + p@.len())[m] != p@[m]);
        }
        i = i + 1;
    }
    assert(!has_infix(s@, p@));
    false
}

proof fn lemma_trim_start_is_suffix(s: Seq<char>)
    ensures
        trim_start(s).len() <= s.len(),
        trim_start(s) == s.subrange(s.len() - trim_start(s).len(), s.len() as int),
        trim_start(s).len() > 0 ==> !is_ws(trim_start(s)[0]),
        forall|k: int| 0 <= k < s.len() - trim_start(s).len() ==> is_ws(#[trigger] s[k]),
    decreases s.len(),
{
    if s.len() > 0 && is_ws(s[0]) {
        lemma_trim_start_is_suffix(s.drop_first());
        assert forall|k: int| 0 <= k < s.len() - trim_start(s).len() implies is_ws(
            #[trigger] s[k],
        ) by {
            if k > 0 {
                assert(s[k] == s.drop_first()[k - 1]);
            }
        }
    } else {
        assert(s.subrange(0, s.len() as int) == s);
    }
}

proof fn lemma_trim_start_of_ws_prefix(s: Seq<char>, k: int)
    requires
        0 <= k <= s.len(),
        forall|j: int| 0 <= j < k ==> is_ws(#[trigger] s[j]),
    ensures
        trim_start(s) == trim_start(s.subrange(k, s.len() as int)),
    decreases k,
{
    if k > 0 {
        assert(is_ws(s[0]));
        let t = s.drop_first();
        assert forall|j: int| 0 <= j < k - 1 implies is_ws(#[trigger] t[j]) by {
            assert(t[j] == s[j + 1]);
        }
        lemma_trim_start_of_ws_prefix(t, k - 1);
        assert(t.subrange(k - 1, t.len() as int) == s.subrange(k, s.len() as int));
    } else {
        assert(s.subrange(0, s.len() as int) == s);
    }
}

proof fn lemma_trim_end_of_ws_suffix(s: Seq<char>, e: int)
    requires
        0 <= e <= s.len(),
        forall|j: int| e <= j < s.len() ==> is_ws(#[trigger] s[j]),
    ensures
        trim_end(s) == trim_end(s.subrange(0, e)),
    decreases s.len() - e,
{
    if e < s.len() {
        assert(is_ws(s.last()));
        let t = s.drop_last();
        assert forall|j: int| e <= j < t.len() implies is_ws(#[trigger] t[j]) by {
            assert(t[j] == s[j]);
        }
        lemma_trim_end_of_ws_suffix(t, e);
        assert(t.subrange(0, e) == s.subrange(0, e));
    } else {
        assert(s.subrange(0, e) == s);
    }
}

/// `v` without leading and trailing whitespace.
pub fn trim_chars(v: &[char]) -> (r: Vec<char>)
    ensures
        r@ == trim(v@),
{
    let n = v.len();
    let mut b: usize = 0;
    while b < n && is_whitespace(v[b])
        invariant
            n == v@.len(),
            b <= n,
            forall|j: int| 0 <= j < b ==> is_ws(#[trigger] v@[j]),
        decreases n - b,
    {
        b = b + 1;
    }
    let mut e: usize = n;
    while e > b && is_whitespace(v[e - 1])
        invariant
            n == v@.len(),
            b <= e <= n,
            forall|j: int| e <= j < n ==> is_ws(#[trigger] v@[j]),
        decreases e,
    {
        e = e - 1;
    }
    let mut r: Vec<char> = Vec::new();
    let mut i: usize = b;
    while i < e
        invariant
            b <= i <= e,
            e <= n == v@.len(),
            r@ == v@.subrange(b as int, i as int),
        decreases e - i,
    {
        r.push(v[i]);
        i = i + 1;
        assert(v@.subrange(b as int, i as int) == v@.subrange(b as int, i - 1).push(v@[i - 1]));
    }
    proof {
        let s = v@;
        lemma_trim_start_of_ws_prefix(s, b as int);
        let t = s.subrange(b as int, n as int);
        // t has no leading whitespace unless empty part
        if b < n {
            assert(!is_ws(s[b as int]));
            assert(trim_start(t) == t);
        } else {
            assert(t.len() == 0);
        }
        assert(trim_start(s) == t);
        assert forall|j: int| e - b <= j < t.len() implies is_ws(#[trigger] t[j]) by {
            assert(t[j] == s[j + b]);
        }
        lemma_trim_end_of_ws_suffix(t, e - b);
        let u = t.subrange(0, e - b);
        if e > b {
            assert(u.last() == s[e - 1]);
            assert(!is_ws(u.last()));
        }
        assert(trim_end(u) == u);
        assert(u =~= s.subrange(b as int, e as int));
    }
    r
}

/// The lines of `s` (`str::lines`), each as its characters.
pub fn lines_chars(s: &[char]) -> (r: Vec<Vec<char>>)
    ensures
        r@.len() == lines_of(s@).len(),
        forall|i: int| 0 <= i < r@.len() ==> #[trigger] r@[i]@ == lines_of(s@)[i],
{
    let mut done: Vec<Vec<char>> = Vec::new();
    let mut cur: Vec<char> = Vec::new();
    let mut i: usize = 0;
    while i < s.len()
        invariant
            i <= s@.len(),
            done@.len() == lines_scan(s@.take(i as int)).0.len(),
            forall|k: int|
                0 <= k < done@.len() ==> #[trigger] done@[k]@ == lines_scan(s@.take(i as int)).0[k],
            cur@ == lines_scan(s@.take(i as int)).1,
        decreases s@.len() - i,
    {
        assert(s@.take(i + 1).drop_last() == s@.take(i as int));
        let c = s[i];
        if c == '\n' {
            if cur.len() > 0 && cur[cur.len() - 1] == '\r' {
                cur.pop();
            }
            let ghost old_done = done@;
            done.push(cur);
            cur = Vec::new();
            assert forall|k: int| 0 <= k < done@.len() implies #[trigger] done@[k]@ == lines_scan(
                s@.take(i + 1),
            ).0[k] by {
                if k < old_done.len() {
                    assert(done@[k] == old_done[k]);
                }
            }
        } else {
            cur.push(c);
        }
        i = i + 1;
    }
    assert(s@.take(s@.len() as int) == s@);
    if cur.len() > 0 {
        let ghost old_done = done@;
        done.push(cur);
        assert forall|k: int| 0 <= k < done@.len() implies #[trigger] done@[k]@ == lines_of(
            s@,
        )[k] by {
            if k < old_done.len() {
                assert(done@[k] == old_done[k]);
            }
        }
    }
    done
}

/// The pieces of `s` between the occurrences of `sep` (`str::split`).
pub fn split_chars(s: &[char], sep: char) -> (r: Vec<Vec<char>>)
    ensures
        r@.len() == split_on(s@, sep).len(),
        forall|i: int| 0 <= i < r@.len() ==> #[trigger] r@[i]@ == split_on(s@, sep)[i],
{
    let mut done: Vec<Vec<char>> = Vec::new();
    let mut cur: Vec<char> = Vec::new();
    let mut i: usize = 0;
    while i < s.len()
        invariant
            i <= s@.len(),
            done@.len() == split_scan(s@.take(i as int), sep).0.len(),
            forall|k: int|
                0 <= k < done@.len() ==> #[trigger] done@[k]@ == split_scan(
                    s@.take(i as int),
                    sep,
                ).0[k],
            cur@ == split_scan(s@.take(i as int), sep).1,
        decreases s@.len() - i,
    {
        assert(s@.take(i + 1).drop_last() == s@.take(i as int));
        let c = s[i];
        if c == sep {
            let ghost old_done = done@;
            done.push(cur);
            cur = Vec::new();
            assert forall|k: int| 0 <= k < done@.len() implies #[trigger] done@[k]@ == split_scan(
                s@.take(i + 1),
                sep,
            ).0[k] by {
                if k < old_done.len() {
                    assert(done@[k] == old_done[k]);
                }
            }
        } else {
            cur.push(c);
        }
        i = i + 1;
    }
    assert(s@.take(s@.len() as int) == s@);
    let ghost old_done = done@;
    done.push(cur);
    assert forall|k: int| 0 <= k < done@.len() implies #[trigger] done@[k]@ == split_on(s@, sep)[k] by {
        if k < old_done.len() {
            assert(done@[k] == old_done[k]);
        }
    }
    done
}

/// The whitespace-separated words of `s` (`str::split_whitespace`).
pub fn words_chars(s: &[char]) -> (r: Vec<Vec<char>>)
    ensures
        r@.len() == words_of(s@).len(),
        forall|i: int| 0 <= i < r@.len() ==> #[trigger] r@[i]@ == words_of(s@)[i],
{
    let mut done: Vec<Vec<char>> = Vec::new();
    let mut cur: Vec<char> = Vec::new();
    let mut i: usize = 0;
    while i < s.len()
        invariant
            i <= s@.len(),
            done@.len() == words_scan(s@.take(i as int)).0.len(),
            forall|k: int|
                0 <= k < done@.len() ==> #[trigger] done@[k]@ == words_scan(s@.take(i as int)).0[k],
            cur@ == words_scan(s@.take(i as int)).1,
        decreases s@.len() - i,
    {
        assert(s@.take(i + 1).drop_last() == s@.take(i as int));
        let c = s[i];
        if is_whitespace(c) {
            if cur.len() > 0 {
                let ghost old_done = done@;
                done.push(cur);
                cur = Vec::new();
                assert forall|k: int|
                    0 <= k < done@.len() implies #[trigger] done@[k]@ == words_scan(
                    s@.take(i + 1),
                ).0[k] by {
                    if k < old_done.len() {
                        assert(done@[k] == old_done[k]);
                    }
                }
            }
        } else {
            cur.push(c);
        }
        i = i + 1;
    }
    assert(s@.take(s@.len() as int) == s@);
    if cur.len() > 0 {
        let ghost old_done = done@;
        done.push(cur);
        assert forall|k: int| 0 <= k < done@.len() implies #[trigger] done@[k]@ == words_of(s@)[k] by {
            if k < old_done.len() {
                assert(done@[k] == old_done[k]);
            }
        }
    }
    done
}

/// `v` padded with spaces on the right to `width` characters.
pub fn pad_right_chars(v: &[char], width: usize) -> (r: Vec<char>)
    ensures
        r@ == pad_right(v@, width as nat),
{
    let mut r: Vec<char> = Vec::new();
    let mut i: usize = 0;
    while i < v.len()
        invariant
            i <= v@.len(),
            r@ == v@.take(i as int),
        decreases v@.len() - i,
    {
        r.push(v[i]);
        i = i + 1;
        assert(v@.take(i as int) == v@.take(i - 1).push(v@[i - 1]));
    }
    assert(v@.take(v@.len() as int) == v@);
    if v.len() < width {
        let mut k: usize = v.len();
        while k < width
            invariant
                v@.len() <= k <= width,
                r@ == v@ + Seq::new((k - v@.len()) as nat, |i: int| ' '),
            decreases width - k,
        {
            r.push(' ');
            k = k + 1;
            assert(r@ =~= v@ + Seq::new((k - v@.len()) as nat, |i: int| ' '));
        }
    }
    r
}

/// The part of `url` after its last `'/'` (the whole of it when it has none).
pub open spec fn last_segment(url: Seq<char>) -> Seq<char> {
    split_on(url, '/').last()
}

/// The part of `url` after its last `'/'` (`url.split('/').next_back()`).
pub fn last_segment_of(url: &[char]) -> (r: Vec<char>)
    ensures
        r@ == last_segment(url@),
{
    let parts = split_chars(url, '/');
    let n = parts.len();
    proof {
        let (d, c) = split_scan(url@, '/');
        assert(split_on(url@, '/').len() == d.len() + 1);
    }
    let last = &parts[n - 1];
    let mut r: Vec<char> = Vec::new();
    let mut i: usize = 0;
    while i < last.len()
        invariant
            i <= last@.len(),
            r@ == last@.take(i as int),
        decreases last@.len() - i,
    {
        r.push(last[i]);
        i = i + 1;
        assert(last@.take(i as int) == last@.take(i - 1).push(last@[i - 1]));
    }
    assert(last@.take(last@.len() as int) == last@);
    r
}

} // verus!
