//! Text layout for the terminal UI: truncation with an ellipsis, greedy word
//! wrapping, the rows of the keyboard-help overlay, and list scrolling.
use vstd::prelude::*;
use crate::styled::{fg, fg_bold, line2, line3, lines_view, push_line, span, LineV, StyledLine, TextStyle};
use crate::text::{
    chars_of, pad_right, pad_right_chars, spaces, split_chars, split_on, string_from, utf8_len,
    utf8_len_of, words_chars, words_of,
};
use crate::theme::TuiTheme;

verus! {

/// `s` cut to at most `max` characters: when longer, its first `max - 1`
/// characters followed by an ellipsis.
pub open spec fn truncated(s: Seq<char>, max: nat) -> Seq<char> {
    if s.len() <= max {
        s
    } else {
        s.take(if max >= 1 { max - 1 } else { 0 }).push('\u{2026}')
    }
}

/// Cut `s` to at most `max` characters, marking a cut with an ellipsis.
pub fn truncate(s: &str, max: usize) -> (r: String)
    ensures
        r@ == truncated(s@, max as nat),
{
    let v = chars_of(s);
    if v.len() <= max {
        return string_from(v.as_slice());
    }
    let keep = if max >= 1 {
        max - 1
    } else {
        0
    };
    let mut out: Vec<char> = Vec::new();
    let mut i: usize = 0;
    while i < keep
        invariant
            keep < v@.len(),
            i <= keep,
            out@ == v@.take(i as int),
        decreases keep - i,
    {
        out.push(v[i]);
        i = i + 1;
        assert(v@.take(i as int) == v@.take(i - 1).push(v@[i - 1]));
    }
    out.push('\u{2026}');
    string_from(out.as_slice())
}

/// A truncated string is never longer than asked for (one character when asked for none).
pub proof fn law_truncated_len(s: Seq<char>, max: nat)
    ensures
        truncated(s, max).len() <= if max == 0 { 1 } else { max },
        s.len() <= max ==> truncated(s, max) == s,
        s.len() > max && max >= 1 ==> truncated(s, max).take(max - 1) == s.take(max - 1),
{
}

/// One greedy filling step: `w` goes on the open line when it fits within
/// `max` bytes together with a separating space, else it opens a new line.
pub open spec fn fill_step(st: (Seq<Seq<char>>, Seq<char>), w: Seq<char>, max: nat) -> (
    Seq<Seq<char>>,
    Seq<char>,
) {
    let (done, cur) = st;
    if cur.len() == 0 {
        (done, w)
    } else if utf8_len(cur) + 1 + utf8_len(w) <= max {
        (done, cur.push(' ') + w)
    } else {
        (done.push(cur), w)
    }
}

/// The filling state after the words `ws`.
pub open spec fn fill_scan(ws: Seq<Seq<char>>, max: nat) -> (Seq<Seq<char>>, Seq<char>)
    decreases ws.len(),
{
    if ws.len() == 0 {
        (Seq::empty(), Seq::empty())
    } else {
        fill_step(fill_scan(ws.drop_last(), max), ws.last(), max)
    }
}

/// The lines of the words `ws` filled greedily into lines of at most `max` bytes.
pub open spec fn fill(ws: Seq<Seq<char>>, max: nat) -> Seq<Seq<char>> {
    let (done, cur) = fill_scan(ws, max);
    if cur.len() > 0 {
        done.push(cur)
    } else {
        done
    }
}

/// The sequences of `s` one after another.
pub open spec fn concat_all(s: Seq<Seq<Seq<char>>>) -> Seq<Seq<char>>
    decreases s.len(),
{
    if s.len() == 0 {
        Seq::empty()
    } else {
        concat_all(s.drop_last()) + s.last()
    }
}

/// `text` wrapped to `max_width` bytes a line: each `'\n'`-separated paragraph
/// is filled greedily with its words; a width of 0 leaves `text` as one line.
pub open spec fn wrapped(text: Seq<char>, max_width: nat) -> Seq<Seq<char>> {
    if max_width == 0 {
        seq![text]
    } else {
        concat_all(
            split_on(text, '\n').map_values(|p: Seq<char>| fill(words_of(p), max_width)),
        )
    }
}

/// The views of a sequence of strings.
pub open spec fn strings_view(v: Seq<String>) -> Seq<Seq<char>> {
    v.map_values(|s: String| s@)
}

fn copy_chars(v: &[char]) -> (r: Vec<char>)
    ensures
        r@ == v@,
{
    let mut r: Vec<char> = Vec::new();
    let mut i: usize = 0;
    while i < v.len()
        invariant
            i <= v@.len(),
            r@ == v@.take(i as int),
        decreases v@.len() - i,
    {
        r.push(v[i]);
        i = i + 1;
        assert(v@.take(i as int) == v@.take(i - 1).push(v@[i - 1]));
    }
    assert(v@.take(v@.len() as int) == v@);
    r
}

fn fill_words(ws: &Vec<Vec<char>>, max: usize, out: &mut Vec<String>)
    requires
        max > 0,
    ensures
        strings_view(final(out)@) == strings_view(old(out)@) + fill(ws@.map_values(|w: Vec<char>| w@), max as nat),
{
    let ghost wv = ws@.map_values(|w: Vec<char>| w@);
    let ghost o = strings_view(out@);
    let mut cur: Vec<char> = Vec::new();
    let mut cur_len: u128 = 0;
    let mut i: usize = 0;
    while i < ws.len()
        invariant
            wv == ws@.map_values(|w: Vec<char>| w@),
            i <= ws@.len(),
            strings_view(out@) == o + fill_scan(wv.take(i as int), max as nat).0,
            cur@ == fill_scan(wv.take(i as int), max as nat).1,
            cur_len == utf8_len(cur@),
            cur_len <= 4 * (usize::MAX as int),
        decreases ws@.len() - i,
    {
        assert(wv.take(i + 1).drop_last() == wv.take(i as int));
        assert(wv.take(i + 1).last() == ws@[i as int]@);
        let w = &ws[i];
        let wlen = w.len();
        let wl = utf8_len_of(w.as_slice());
        if cur.len() == 0 {
            cur = copy_chars(w.as_slice());
            cur_len = wl;
        } else if cur_len + 1 + wl <= max as u128 {
            proof {
                lemma_utf8_len_push_concat(cur@, w@);
            }
            cur.push(' ');
            let mut k: usize = 0;
            let ghost c0 = cur@;
            while k < wlen
                invariant
                    wlen == w@.len(),
                    k <= w@.len(),
                    cur@ == c0 + w@.take(k as int),
                decreases w@.len() - k,
            {
                cur.push(w[k]);
                k = k + 1;
                assert(c0 + w@.take(k as int) == (c0 + w@.take(k - 1)).push(w@[k - 1]));
            }
            assert(w@.take(w@.len() as int) == w@);
            cur_len = cur_len + 1 + wl;
        } else {
            let ghost d = out@;
            out.push(string_from(cur.as_slice()));
            assert(strings_view(out@) =~= strings_view(d).push(cur@));
            cur = copy_chars(w.as_slice());
            cur_len = wl;
        }
        i = i + 1;
    }
    assert(wv.take(ws@.len() as int) == wv);
    if cur.len() > 0 {
        let ghost d = out@;
        out.push(string_from(cur.as_slice()));
        assert(strings_view(out@) =~= strings_view(d).push(cur@));
    }
}

proof fn lemma_utf8_len_push_concat(a: Seq<char>, b: Seq<char>)
    ensures
        utf8_len(a.push(' ') + b) == utf8_len(a) + 1 + utf8_len(b),
    decreases b.len(),
{
    if b.len() == 0 {
        assert(a.push(' ') + b == a.push(' '));
        assert(a.push(' ').drop_last() == a);
    } else {
        lemma_utf8_len_push_concat(a, b.drop_last());
        assert((a.push(' ') + b).drop_last() == a.push(' ') + b.drop_last());
    }
}

/// Wrap `text` to lines of at most `max_width` bytes, breaking between words.
pub fn wrap_text(text: &str, max_width: usize) -> (r: Vec<String>)
    ensures
        strings_view(r@) == wrapped(text@, max_width as nat),
{
    let mut lines: Vec<String> = Vec::new();
    if max_width == 0 {
        lines.push(string_from(chars_of(text).as_slice()));
        assert(strings_view(lines@) =~= seq![text@]);
        return lines;
    }
    let chars = chars_of(text);
    let paras = split_chars(chars.as_slice(), '\n');
    let ghost ps = split_on(text@, '\n');
    let ghost filled = ps.map_values(|p: Seq<char>| fill(words_of(p), max_width as nat));
    let mut i: usize = 0;
    assert(strings_view(lines@) =~= Seq::<Seq<char>>::empty());
    while i < paras.len()
        invariant
            max_width > 0,
            paras@.len() == ps.len(),
            forall|k: int| 0 <= k < paras@.len() ==> #[trigger] paras@[k]@ == ps[k],
            filled == ps.map_values(|p: Seq<char>| fill(words_of(p), max_width as nat)),
            i <= paras@.len(),
            strings_view(lines@) == concat_all(filled.take(i as int)),
        decreases paras@.len() - i,
    {
        let ws = words_chars(paras[i].as_slice());
        proof {
            assert(ws@.map_values(|w: Vec<char>| w@) =~= words_of(ps[i as int]));
            assert(filled.take(i + 1).drop_last() == filled.take(i as int));
        }
        fill_words(&ws, max_width, &mut lines);
        i = i + 1;
    }
    assert(filled.take(paras@.len() as int) == filled);
    lines
}

/// The key column of a help row: two spaces, the key padded to 15 characters, a space.
pub open spec fn key_cell(key: Seq<char>) -> Seq<char> {
    seq![' ', ' '] + pad_right(key, 15) + seq![' ']
}

/// The lines of one help row: the key and the first wrapped piece of the
/// description, then each further piece indented under the description column.
pub open spec fn help_rows(key: Seq<char>, description: Seq<char>, max_desc_width: nat, theme: TuiTheme) -> Seq<LineV> {
    let w = wrapped(description, max_desc_width);
    let k = (key_cell(key), fg_bold(theme.accent_primary));
    let colon = (seq![':', ' '], fg(theme.text_main));
    if w.len() == 0 {
        seq![seq![k, colon]]
    } else {
        Seq::new(
            w.len(),
            |i: int|
                if i == 0 {
                    seq![k, colon, (w[0], fg(theme.text_main))]
                } else {
                    seq![(spaces(20), fg(theme.text_main)), (w[i], fg(theme.text_main))]
                },
        )
    }
}

/// The lines of one row of the keyboard-help overlay.
pub fn format_help_row(key: &str, description: &str, max_desc_width: usize, theme: &TuiTheme) -> (r: Vec<StyledLine>)
    ensures
        lines_view(r@) == help_rows(key@, description@, max_desc_width as nat, *theme),
{
    let wrapped_lines = wrap_text(description, max_desc_width);
    let kc = chars_of(key);
    let padded = pad_right_chars(kc.as_slice(), 15);
    let mut key_str: Vec<char> = Vec::new();
    key_str.push(' ');
    key_str.push(' ');
    let mut i: usize = 0;
    while i < padded.len()
        invariant
            i <= padded@.len(),
            key_str@ == seq![' ', ' '] + padded@.take(i as int),
        decreases padded@.len() - i,
    {
        key_str.push(padded[i]);
        i = i + 1;
        assert(seq![' ', ' '] + padded@.take(i as int) == (seq![' ', ' '] + padded@.take(i - 1)).push(padded@[i - 1]));
    }
    assert(padded@.take(padded@.len() as int) == padded@);
    key_str.push(' ');
    assert(key_str@ =~= key_cell(key@));
    let colon: Vec<char> = vec![':', ' '];
    assert(colon@ =~= seq![':', ' ']);
    let key_style = TextStyle { fg: Some(theme.accent_primary), bold: true };
    let main_style = TextStyle { fg: Some(theme.text_main), bold: false };
    let ghost w = wrapped(description@, max_desc_width as nat);
    let ghost expected = help_rows(key@, description@, max_desc_width as nat, *theme);
    let mut lines: Vec<StyledLine> = Vec::new();
    if wrapped_lines.len() == 0 {
        push_line(&mut lines, line2(span(key_str.as_slice(), key_style), span(colon.as_slice(), main_style)));
        assert(lines_view(lines@) =~= expected);
        return lines;
    }
    let mut pad: Vec<char> = Vec::new();
    let mut p: usize = 0;
    while p < 20
        invariant
            p <= 20,
            pad@ == spaces(p as nat),
        decreases 20 - p,
    {
        pad.push(' ');
        p = p + 1;
        assert(pad@ =~= spaces(p as nat));
    }
    let mut j: usize = 0;
    assert(lines_view(lines@) =~= Seq::<LineV>::empty());
    while j < wrapped_lines.len()
        invariant
            strings_view(wrapped_lines@) == w,
            w == wrapped(description@, max_desc_width as nat),
            w.len() > 0,
            expected == help_rows(key@, description@, max_desc_width as nat, *theme),
            key_str@ == key_cell(key@),
            colon@ == seq![':', ' '],
            pad@ == spaces(20),
            key_style == fg_bold(theme.accent_primary),
            main_style == fg(theme.text_main),
            j <= wrapped_lines@.len(),
            lines_view(lines@) == expected.take(j as int),
        decreases wrapped_lines@.len() - j,
    {
        let chunk = chars_of(wrapped_lines[j].as_str());
        assert(chunk@ == w[j as int]);
        assert(expected.len() == w.len());
        let l = if j == 0 {
            let l0 = line3(span(key_str.as_slice(), key_style), span(colon.as_slice(), main_style), span(chunk.as_slice(), main_style));
            assert(l0@ == expected[0]);
            l0
        } else {
            let l1 = line2(span(pad.as_slice(), main_style), span(chunk.as_slice(), main_style));
            assert(l1@ == expected[j as int]);
            l1
        };
        push_line(&mut lines, l);
        j = j + 1;
        assert(lines_view(lines@) =~= expected.take(j as int));
    }
    assert(expected.take(wrapped_lines@.len() as int) =~= expected);
    lines
}

/// Whether a filled line keeps to the width or is one of the words (a word
/// wider than the width gets a line of its own).
pub open spec fn fits_or_word(line: Seq<char>, ws: Seq<Seq<char>>, max: nat) -> bool {
    utf8_len(line) <= max || ws.contains(line)
}

proof fn lemma_fill_scan_fits(ws: Seq<Seq<char>>, max: nat)
    ensures
        forall|i: int|
            0 <= i < fill_scan(ws, max).0.len() ==> fits_or_word(#[trigger] fill_scan(ws, max).0[i], ws, max),
        fill_scan(ws, max).1.len() > 0 ==> fits_or_word(fill_scan(ws, max).1, ws, max),
    decreases ws.len(),
{
    if ws.len() > 0 {
        let pre = ws.drop_last();
        lemma_fill_scan_fits(pre, max);
        let (done, cur) = fill_scan(pre, max);
        let w = ws.last();
        assert(ws.contains(w)) by {
            assert(ws[ws.len() - 1] == w);
        }
        assert forall|l: Seq<char>| fits_or_word(l, pre, max) implies fits_or_word(l, ws, max) by {
            if pre.contains(l) && utf8_len(l) > max {
                let k = choose|k: int| 0 <= k < pre.len() && pre[k] == l;
                assert(ws[k] == l);
            }
        }
        if cur.len() > 0 && utf8_len(cur) + 1 + utf8_len(w) <= max {
            lemma_utf8_len_push_concat(cur, w);
        }
        let (d2, c2) = fill_scan(ws, max);
        assert forall|i: int| 0 <= i < d2.len() implies fits_or_word(#[trigger] d2[i], ws, max) by {
            if i < done.len() {
                assert(d2[i] == done[i]);
                assert(fits_or_word(done[i], pre, max));
            } else {
                assert(d2[i] == cur);
            }
        }
    }
}

/// Every line that greedy filling produces is at most `max` bytes wide,
/// unless it is a single word that is wider by itself.
pub proof fn law_fill_lines_fit(ws: Seq<Seq<char>>, max: nat)
    ensures
        forall|i: int| 0 <= i < fill(ws, max).len() ==> fits_or_word(#[trigger] fill(ws, max)[i], ws, max),
{
    lemma_fill_scan_fits(ws, max);
    let (done, cur) = fill_scan(ws, max);
    assert forall|i: int| 0 <= i < fill(ws, max).len() implies fits_or_word(#[trigger] fill(ws, max)[i], ws, max) by {
        if i < done.len() {
            assert(fill(ws, max)[i] == done[i]);
        } else {
            assert(fill(ws, max)[i] == cur);
        }
    }
}

/// The first shown row of a list after scrolling the highlighted row
/// `selected` of `total` rows into a window of `height` rows that started at
/// `offset`: up to it, or down just far enough, then back so that the window
/// does not run past the end.
pub open spec fn scrolled_offset(selected: int, offset: int, height: int, total: int) -> int {
    let o1 = if selected < offset {
        selected
    } else if selected >= offset + height {
        selected - height + 1
    } else {
        offset
    };
    if o1 + height > total {
        if total >= height {
            total - height
        } else {
            0
        }
    } else {
        o1
    }
}

/// The scroll position of the screensaver list: the new offset, and the range
/// `start..end` of rows shown.
pub fn list_window(selected: usize, offset: usize, height: usize, total: usize) -> (r: (usize, usize, usize))
    requires
        offset + height <= usize::MAX,
        selected + 1 <= usize::MAX,
    ensures
        r.0 == scrolled_offset(selected as int, offset as int, height as int, total as int),
        r.1 == r.0,
        r.2 == (if r.0 + height < total { r.0 + height } else { total as int }),
{
    let mut off = offset;
    if selected < off {
        off = selected;
    } else if selected >= off + height {
        off = selected + 1 - height;
    }
    if off + height > total {
        off = if total >= height {
            total - height
        } else {
            0
        };
    }
    let end = if off + height < total {
        off + height
    } else {
        total
    };
    (off, off, end)
}

/// The highlighted row of a non-empty list is always inside the shown window,
/// and the window is never taller than asked.
pub proof fn law_list_window_shows_selected(selected: int, offset: int, height: int, total: int)
    requires
        0 <= selected < total,
        0 <= offset,
        0 < height,
    ensures
        ({
            let o = scrolled_offset(selected, offset, height, total);
            let end = if o + height < total { o + height } else { total };
            &&& 0 <= o <= selected < end
            &&& end - o <= height
            &&& end <= total
        }),
{
}

} // verus!
