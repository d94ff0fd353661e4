//! The small Markdown dialect of the embedded documents, turned into styled lines.
//!
//! Line by line: a line whose trimmed text starts with three backticks opens or
//! closes a code block, whose lines are kept as they are; a blank line ends the
//! paragraph; `# `, `## ` and `### ` make headings; `* ` and `- ` make bullets;
//! `1. ` to `5. ` make numbered items; any other line joins the running
//! paragraph, separated by one space.
use vstd::prelude::*;
use crate::styled::{
    blank, blank_line, fg, fg_bold, line1, line2, lines_view, push_line, span, LineV, StyledLine,
    TextStyle,
};
use crate::text::{chars_of, has_prefix, lines_chars, lines_of, starts_with, string_from, trim, trim_chars};
use crate::theme::{Color, TuiTheme};

verus! {

/// The upper-cased form of `s` (what `str::to_uppercase` returns).
pub uninterp spec fn upper(s: Seq<char>) -> Seq<char>;

/// `str::to_uppercase`: Unicode upper-casing of `s`.
#[verifier::external_body]
fn to_uppercase(s: &str) -> (r: String)
    ensures
        r@ == upper(s@),
{
    s.to_uppercase()
}

/// The colour of code-block lines.
pub open spec fn code_color() -> Color {
    Color::Rgb(150, 240, 150)
}

/// A code fence.
pub open spec fn fence() -> Seq<char> {
    seq!['`', '`', '`']
}

/// The marker of a level-one heading.
pub open spec fn h1_mark() -> Seq<char> {
    seq!['#', ' ']
}

/// The marker of a level-two heading.
pub open spec fn h2_mark() -> Seq<char> {
    seq!['#', '#', ' ']
}

/// The marker of a level-three heading.
pub open spec fn h3_mark() -> Seq<char> {
    seq!['#', '#', '#', ' ']
}

/// A bullet marker.
pub open spec fn star_mark() -> Seq<char> {
    seq!['*', ' ']
}

/// The other bullet marker.
pub open spec fn dash_mark() -> Seq<char> {
    seq!['-', ' ']
}

/// Whether `t` starts with `1. ` to `5. `.
pub open spec fn is_numbered(t: Seq<char>) -> bool {
    t.len() >= 3 && '1' <= t[0] && t[0] <= '5' && t[1] == '.' && t[2] == ' '
}

/// The paragraph text `para` as a line of its own, when there is any.
pub open spec fn flush_para(out: Seq<LineV>, para: Seq<char>, theme: TuiTheme) -> Seq<LineV> {
    if para.len() > 0 {
        out.push(seq![(para, fg(theme.text_main))])
    } else {
        out
    }
}

/// The level-one heading line for heading text `h`.
pub open spec fn h1_line(h: Seq<char>, theme: TuiTheme) -> LineV {
    seq![(seq!['=', '=', '=', ' '] + upper(h) + seq![' ', '=', '=', '='], fg_bold(theme.accent_primary))]
}

/// The level-two heading line for heading text `h`.
pub open spec fn h2_line(h: Seq<char>, theme: TuiTheme) -> LineV {
    seq![(seq!['-', '-', '-', ' '] + h + seq![' ', '-', '-', '-'], fg_bold(theme.accent_primary))]
}

/// A bullet item line.
pub open spec fn bullet_line(item: Seq<char>, theme: TuiTheme) -> LineV {
    seq![(seq![' ', '\u{2022}', ' '], fg(theme.accent_primary)), (item, fg(theme.text_main))]
}

/// A numbered item line for trimmed text `t`.
pub open spec fn numbered_line(t: Seq<char>, theme: TuiTheme) -> LineV {
    seq![(seq![' ', ' '] + t.take(3) + seq![' '], fg(theme.accent_primary)), (t.skip(3), fg(theme.text_main))]
}

/// The scanning state after one more source line: the lines made so far,
/// whether a code block is open, and the open paragraph's text.
pub open spec fn md_step(st: (Seq<LineV>, bool, Seq<char>), line: Seq<char>, theme: TuiTheme) -> (
    Seq<LineV>,
    bool,
    Seq<char>,
) {
    let (out, code, para) = st;
    let t = trim(line);
    if has_prefix(t, fence()) {
        (flush_para(out, para, theme), !code, Seq::empty())
    } else if code {
        (out.push(seq![(line, fg(code_color()))]), code, para)
    } else if t.len() == 0 {
        (flush_para(out, para, theme).push(blank_line()), code, Seq::empty())
    } else if has_prefix(t, h1_mark()) {
        (
            flush_para(out, para, theme).push(blank_line()).push(h1_line(t.skip(2), theme)).push(
                blank_line(),
            ),
            code,
            Seq::empty(),
        )
    } else if has_prefix(t, h2_mark()) {
        (
            flush_para(out, para, theme).push(blank_line()).push(h2_line(t.skip(3), theme)).push(
                blank_line(),
            ),
            code,
            Seq::empty(),
        )
    } else if has_prefix(t, h3_mark()) {
        (
            flush_para(out, para, theme).push(seq![(t.skip(4), fg(theme.accent_primary))]),
            code,
            Seq::empty(),
        )
    } else if has_prefix(t, star_mark()) || has_prefix(t, dash_mark()) {
        (flush_para(out, para, theme).push(bullet_line(t.skip(2), theme)), code, Seq::empty())
    } else if is_numbered(t) {
        (flush_para(out, para, theme).push(numbered_line(t, theme)), code, Seq::empty())
    } else if para.len() > 0 {
        (out, code, para.push(' ') + t)
    } else {
        (out, code, t)
    }
}

/// The scanning state after the source lines `lines`.
pub open spec fn md_scan(lines: Seq<Seq<char>>, theme: TuiTheme) -> (Seq<LineV>, bool, Seq<char>)
    decreases lines.len(),
{
    if lines.len() == 0 {
        (Seq::empty(), false, Seq::empty())
    } else {
        md_step(md_scan(lines.drop_last(), theme), lines.last(), theme)
    }
}

/// The styled lines of the document `content`.
pub open spec fn markdown_lines(content: Seq<char>, theme: TuiTheme) -> Seq<LineV> {
    let st = md_scan(lines_of(content), theme);
    flush_para(st.0, st.2, theme)
}

fn flush(out: &mut Vec<StyledLine>, para: &mut Vec<char>, theme: &TuiTheme)
    ensures
        lines_view(final(out)@) == flush_para(lines_view(old(out)@), old(para)@, *theme),
        final(para)@.len() == 0,
{
    if para.len() > 0 {
        let l = line1(span(para.as_slice(), TextStyle { fg: Some(theme.text_main), bold: false }));
        push_line(out, l);
        *para = Vec::new();
    }
}

fn append_chars(dst: &mut Vec<char>, src: &[char])
    ensures
        final(dst)@ == old(dst)@ + src@,
{
    let mut i: usize = 0;
    while i < src.len()
        invariant
            i <= src@.len(),
            dst@ == old(dst)@ + src@.take(i as int),
        decreases src@.len() - i,
    {
        dst.push(src[i]);
        i = i + 1;
        assert(old(dst)@ + src@.take(i as int) == (old(dst)@ + src@.take(i - 1)).push(src@[i - 1]));
    }
    assert(src@.take(src@.len() as int) == src@);
}

fn skip_chars(v: &[char], n: usize) -> (r: Vec<char>)
    requires
        n <= v@.len(),
    ensures
        r@ == v@.skip(n as int),
{
    let mut r: Vec<char> = Vec::new();
    let mut i: usize = n;
    while i < v.len()
        invariant
            n <= i <= v@.len(),
            r@ == v@.subrange(n as int, i as int),
        decreases v@.len() - i,
    {
        r.push(v[i]);
        i = i + 1;
        assert(v@.subrange(n as int, i as int) == v@.subrange(n as int, i - 1).push(v@[i - 1]));
    }
    assert(v@.subrange(n as int, v@.len() as int) == v@.skip(n as int));
    r
}

fn heading1(h: &[char], theme: &TuiTheme) -> (l: StyledLine)
    ensures
        l@ == h1_line(h@, *theme),
{
    let hs = string_from(h);
    let up = to_uppercase(hs.as_str());
    let mut v: Vec<char> = Vec::new();
    v.push('=');
    v.push('=');
    v.push('=');
    v.push(' ');
    let upc = chars_of(up.as_str());
    append_chars(&mut v, upc.as_slice());
    let mut tail: Vec<char> = Vec::new();
    tail.push(' ');
    tail.push('=');
    tail.push('=');
    tail.push('=');
    append_chars(&mut v, tail.as_slice());
    assert(v@ =~= seq!['=', '=', '=', ' '] + upper(h@) + seq![' ', '=', '=', '=']);
    line1(span(v.as_slice(), TextStyle { fg: Some(theme.accent_primary), bold: true }))
}

fn heading2(h: &[char], theme: &TuiTheme) -> (l: StyledLine)
    ensures
        l@ == h2_line(h@, *theme),
{
    let mut v: Vec<char> = Vec::new();
    v.push('-');
    v.push('-');
    v.push('-');
    v.push(' ');
    append_chars(&mut v, h);
    let mut tail: Vec<char> = Vec::new();
    tail.push(' ');
    tail.push('-');
    tail.push('-');
    tail.push('-');
    append_chars(&mut v, tail.as_slice());
    assert(v@ =~= seq!['-', '-', '-', ' '] + h@ + seq![' ', '-', '-', '-']);
    line1(span(v.as_slice(), TextStyle { fg: Some(theme.accent_primary), bold: true }))
}

fn bullet(item: &[char], theme: &TuiTheme) -> (l: StyledLine)
    ensures
        l@ == bullet_line(item@, *theme),
{
    let mut m: Vec<char> = Vec::new();
    m.push(' ');
    m.push('\u{2022}');
    m.push(' ');
    assert(m@ =~= seq![' ', '\u{2022}', ' ']);
    line2(
        span(m.as_slice(), TextStyle { fg: Some(theme.accent_primary), bold: false }),
        span(item, TextStyle { fg: Some(theme.text_main), bold: false }),
    )
}

fn numbered(t: &[char], theme: &TuiTheme) -> (l: StyledLine)
    requires
        t@.len() >= 3,
    ensures
        l@ == numbered_line(t@, *theme),
{
    let mut m: Vec<char> = Vec::new();
    m.push(' ');
    m.push(' ');
    m.push(t[0]);
    m.push(t[1]);
    m.push(t[2]);
    m.push(' ');
    assert(m@ =~= seq![' ', ' '] + t@.take(3) + seq![' ']);
    let rest = skip_chars(t, 3);
    line2(
        span(m.as_slice(), TextStyle { fg: Some(theme.accent_primary), bold: false }),
        span(rest.as_slice(), TextStyle { fg: Some(theme.text_main), bold: false }),
    )
}

fn is_numbered_item(t: &[char]) -> (r: bool)
    ensures
        r == is_numbered(t@),
{
    t.len() >= 3 && '1' <= t[0] && t[0] <= '5' && t[1] == '.' && t[2] == ' '
}

/// Parse a raw markdown string into styled lines.
pub fn parse_markdown_to_lines(content: &str, theme: &TuiTheme) -> (r: Vec<StyledLine>)
    ensures
        lines_view(r@) == markdown_lines(content@, *theme),
{
    let chars = chars_of(content);
    let lines = lines_chars(chars.as_slice());
    let ghost src = lines_of(content@);
    let fence_v: Vec<char> = vec!['`', '`', '`'];
    let h1_v: Vec<char> = vec!['#', ' '];
    let h2_v: Vec<char> = vec!['#', '#', ' '];
    let h3_v: Vec<char> = vec!['#', '#', '#', ' '];
    let star_v: Vec<char> = vec!['*', ' '];
    let dash_v: Vec<char> = vec!['-', ' '];
    assert(fence_v@ =~= fence());
    assert(h1_v@ =~= h1_mark());
    assert(h2_v@ =~= h2_mark());
    assert(h3_v@ =~= h3_mark());
    assert(star_v@ =~= star_mark());
    assert(dash_v@ =~= dash_mark());
    let mut out: Vec<StyledLine> = Vec::new();
    let mut in_code = false;
    let mut para: Vec<char> = Vec::new();
    let mut i: usize = 0;
    assert(lines_view(out@) =~= Seq::<LineV>::empty());
    while i < lines.len()
        invariant
            lines@.len() == src.len(),
            forall|k: int| 0 <= k < lines@.len() ==> #[trigger] lines@[k]@ == src[k],
            i <= lines@.len(),
            fence_v@ == fence(),
            h1_v@ == h1_mark(),
            h2_v@ == h2_mark(),
            h3_v@ == h3_mark(),
            star_v@ == star_mark(),
            dash_v@ == dash_mark(),
            (lines_view(out@), in_code, para@) == md_scan(src.take(i as int), *theme),
        decreases lines@.len() - i,
    {
        assert(src.take(i + 1).drop_last() == src.take(i as int));
        assert(src.take(i + 1).last() == src[i as int]);
        let line = &lines[i];
        assert(line@ == src[i as int]);
        let t = trim_chars(line.as_slice());
        let ts = t.as_slice();
        if starts_with(ts, fence_v.as_slice()) {
            flush(&mut out, &mut para, theme);
            in_code = !in_code;
            assert(para@ =~= Seq::<char>::empty());
        } else if in_code {
            let l = line1(span(line.as_slice(), TextStyle { fg: Some(Color::Rgb(150, 240, 150)), bold: false }));
            push_line(&mut out, l);
        } else if t.len() == 0 {
            flush(&mut out, &mut para, theme);
            push_line(&mut out, blank());
            assert(para@ =~= Seq::<char>::empty());
        } else if starts_with(ts, h1_v.as_slice()) {
            flush(&mut out, &mut para, theme);
            let h = skip_chars(ts, 2);
            push_line(&mut out, blank());
            push_line(&mut out, heading1(h.as_slice(), theme));
            push_line(&mut out, blank());
            assert(para@ =~= Seq::<char>::empty());
        } else if starts_with(ts, h2_v.as_slice()) {
            flush(&mut out, &mut para, theme);
            let h = skip_chars(ts, 3);
            push_line(&mut out, blank());
            push_line(&mut out, heading2(h.as_slice(), theme));
            push_line(&mut out, blank());
            assert(para@ =~= Seq::<char>::empty());
        } else if starts_with(ts, h3_v.as_slice()) {
            flush(&mut out, &mut para, theme);
            let h = skip_chars(ts, 4);
            push_line(&mut out, line1(span(h.as_slice(), TextStyle { fg: Some(theme.accent_primary), bold: false })));
            assert(para@ =~= Seq::<char>::empty());
        } else if starts_with(ts, star_v.as_slice()) || starts_with(ts, dash_v.as_slice()) {
            flush(&mut out, &mut para, theme);
            let item = skip_chars(ts, 2);
            push_line(&mut out, bullet(item.as_slice(), theme));
            assert(para@ =~= Seq::<char>::empty());
        } else if is_numbered_item(ts) {
            flush(&mut out, &mut para, theme);
            push_line(&mut out, numbered(ts, theme));
            assert(para@ =~= Seq::<char>::empty());
        } else {
            if para.len() > 0 {
                para.push(' ');
            }
            append_chars(&mut para, ts);
        }
        i = i + 1;
    }
    assert(src.take(lines@.len() as int) == src);
    flush(&mut out, &mut para, theme);
    out
}

} // verus!
