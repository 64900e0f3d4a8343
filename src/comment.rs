//! Documentation comments: extraction from raw source comments and the
//! annotations they may carry.
use vstd::prelude::*;
use vstd::string::*;

use crate::decl::{CommentKind, RawComment};
use crate::text::{char_is_ws, is_prefix, is_ws, str_starts_with, str_trim, trim};

verus! {

/// Style of a comment block.
#[derive(PartialEq, Eq, Structural, Clone, Copy, Debug)]
pub enum CommentStyle {
    /// `///` comments
    TripleSlash,
    /// `/** ... */` comments
    JsDoc,
}

/// A block of documentation comments.
#[derive(Debug)]
pub struct CommentBlock {
    /// The style of the comment block
    pub style: CommentStyle,
    /// Comment lines without the comment syntax
    pub lines: Vec<String>,
}

/// Views of a list of strings.
pub open spec fn views(v: Seq<String>) -> Seq<Seq<char>> {
    v.map_values(|s: String| s@)
}

impl CommentBlock {
    pub open spec fn lines_view(&self) -> Seq<Seq<char>> {
        views(self.lines@)
    }

    /// The block that holds no comment.
    pub fn empty() -> (r: CommentBlock)
        ensures
            r.style == CommentStyle::JsDoc,
            r.lines@.len() == 0,
    {
        CommentBlock { style: CommentStyle::JsDoc, lines: Vec::new() }
    }
}

/// A character cut off the start of each comment line.
pub open spec fn is_marker(c: char) -> bool {
    c == '!' || c == '/' || c == '*' || is_ws(c)
}

/// `s` without its leading comment markers and whitespace.
pub open spec fn strip_markers(s: Seq<char>) -> Seq<char>
    decreases s.len(),
{
    if s.len() > 0 && is_marker(s[0]) {
        strip_markers(s.drop_first())
    } else {
        s
    }
}

/// One comment line as it is kept.
pub open spec fn clean_line(s: Seq<char>) -> Seq<char> {
    trim(strip_markers(s))
}

/// The lines of `t`, split at each `'\n'`, where `cur` is the line read so far;
/// a final newline ends the last line rather than starting an empty one.
pub open spec fn split_lines(t: Seq<char>, cur: Seq<char>) -> Seq<Seq<char>>
    decreases t.len(),
{
    if t.len() == 0 {
        if cur.len() == 0 {
            seq![]
        } else {
            seq![cur]
        }
    } else if t[0] == '\n' {
        seq![cur] + split_lines(t.drop_first(), seq![])
    } else {
        split_lines(t.drop_first(), cur.push(t[0]))
    }
}

pub open spec fn text_lines(t: Seq<char>) -> Seq<Seq<char>> {
    split_lines(t, seq![])
}

/// The cleaned lines of one comment.
pub open spec fn comment_lines(c: RawComment) -> Seq<Seq<char>> {
    text_lines(c.text@).map_values(|l: Seq<char>| clean_line(l))
}

/// `ls` without its leading empty lines.
pub open spec fn skip_empty_prefix(ls: Seq<Seq<char>>) -> Seq<Seq<char>>
    decreases ls.len(),
{
    if ls.len() == 0 {
        seq![]
    } else {
        let p = skip_empty_prefix(ls.drop_last());
        if p.len() == 0 && ls.last().len() == 0 {
            seq![]
        } else {
            p.push(ls.last())
        }
    }
}

/// `ls` without its trailing empty lines.
pub open spec fn skip_empty_suffix(ls: Seq<Seq<char>>) -> Seq<Seq<char>>
    decreases ls.len(),
{
    if ls.len() > 0 && ls.last().len() == 0 {
        skip_empty_suffix(ls.drop_last())
    } else {
        ls
    }
}

/// Lines gathered so far, extended by the lines of one more comment: empty
/// lines are dropped while nothing has been gathered.
pub open spec fn add_lines(out: Seq<Seq<char>>, ls: Seq<Seq<char>>) -> Seq<Seq<char>> {
    if out.len() == 0 {
        skip_empty_prefix(ls)
    } else {
        out + ls
    }
}

/// The lines of all comments, in order, before trailing empty lines go.
pub open spec fn gathered_lines(cs: Seq<RawComment>) -> Seq<Seq<char>>
    decreases cs.len(),
{
    if cs.len() == 0 {
        seq![]
    } else {
        add_lines(gathered_lines(cs.drop_last()), comment_lines(cs.last()))
    }
}

/// The lines of the block extracted from `cs`.
pub open spec fn extracted_lines(cs: Seq<RawComment>) -> Seq<Seq<char>> {
    skip_empty_suffix(gathered_lines(cs))
}

/// The style of the block extracted from `cs`: `///` only when every comment
/// is a line comment and there is at least one line.
pub open spec fn extracted_style(cs: Seq<RawComment>) -> CommentStyle {
    if extracted_lines(cs).len() > 0 && forall|i: int| 0 <= i < cs.len() ==> cs[i].kind == CommentKind::Line {
        CommentStyle::TripleSlash
    } else {
        CommentStyle::JsDoc
    }
}

/// Index of the first character of `s` that is neither a comment marker nor whitespace.
fn skip_markers(s: &str) -> (i: usize)
    ensures
        i <= s@.len(),
        strip_markers(s@) == s@.subrange(i as int, s@.len() as int),
{
    let n = s.unicode_len();
    let mut i: usize = 0;
    assert(s@.subrange(0, n as int) =~= s@);
    while i < n
        invariant
            i <= n,
            n == s@.len(),
            strip_markers(s@) == strip_markers(s@.subrange(i as int, n as int)),
        decreases n - i,
    {
        let c = s.get_char(i);
        let m = c == '!' || c == '/' || c == '*' || char_is_ws(c);
        if !m {
            return i;
        }
        assert(s@.subrange(i as int, n as int).drop_first() =~= s@.subrange(i + 1, n as int));
        i += 1;
    }
    i
}

/// One comment line as it is kept.
pub fn clean_comment_line(s: &str) -> (r: String)
    ensures
        r@ == clean_line(s@),
{
    let i = skip_markers(s);
    let n = s.unicode_len();
    str_trim(s.substring_char(i, n))
}

/// The lines of `t`, as `str::lines` splits them up to a trailing carriage return.
pub fn split_text_lines(t: &str) -> (r: Vec<String>)
    ensures
        views(r@) == text_lines(t@),
{
    let n = t.unicode_len();
    let mut out: Vec<String> = Vec::new();
    let mut start: usize = 0;
    let mut i: usize = 0;
    proof {
        assert(t@.subrange(0, n as int) =~= t@);
        assert(t@.subrange(0, 0) =~= Seq::<char>::empty());
        assert(views(out@) + text_lines(t@) =~= text_lines(t@));
    }
    while i < n
        invariant
            start <= i <= n,
            n == t@.len(),
            views(out@) + split_lines(t@.subrange(i as int, n as int), t@.subrange(start as int, i as int))
                == text_lines(t@),
        decreases n - i,
    {
        let ghost rest = t@.subrange(i as int, n as int);
        assert(rest.drop_first() =~= t@.subrange(i + 1, n as int));
        let c = t.get_char(i);
        if c == '\n' {
            let line = String::from_str(t.substring_char(start, i));
            proof {
                assert(views(out@.push(line)) =~= views(out@).push(line@));
                assert(t@.subrange(i + 1, i + 1) =~= Seq::<char>::empty());
                assert(views(out@).push(line@) + split_lines(rest.drop_first(), seq![])
                    =~= views(out@) + (seq![line@] + split_lines(rest.drop_first(), seq![])));
            }
            out.push(line);
            start = i + 1;
        } else {
            assert(t@.subrange(start as int, i + 1) =~= t@.subrange(start as int, i as int).push(c));
        }
        i += 1;
    }
    if start < n {
        let line = String::from_str(t.substring_char(start, n));
        proof {
            assert(views(out@.push(line)) =~= views(out@) + seq![line@]);
        }
        out.push(line);
    } else {
        assert(views(out@) + seq![] =~= views(out@));
    }
    out
}

/// Adds the cleaned lines of one comment to `out`.
fn add_comment(comment: &RawComment, out: &mut Vec<String>)
    ensures
        views(final(out)@) == add_lines(views(old(out)@), comment_lines(*comment)),
{
    let raw = split_text_lines(comment.text.as_str());
    let ghost ls = comment_lines(*comment);
    let ghost base = views(out@);
    let was_empty = out.len() == 0;
    let mut k: usize = 0;
    while k < raw.len()
        invariant
            k <= raw@.len(),
            views(raw@) == text_lines(comment.text@),
            ls == comment_lines(*comment),
            ls.len() == raw@.len(),
            base.len() == 0 <==> was_empty,
            was_empty ==> views(out@) == skip_empty_prefix(ls.subrange(0, k as int)),
            !was_empty ==> views(out@) == base + ls.subrange(0, k as int),
        decreases raw@.len() - k,
    {
        let line = clean_comment_line(raw[k].as_str());
        proof {
            assert(raw@[k as int]@ == views(raw@)[k as int]);
            assert(line@ == ls[k as int]);
            assert(ls.subrange(0, k + 1).drop_last() =~= ls.subrange(0, k as int));
            assert(views(out@.push(line)) =~= views(out@).push(line@));
        }
        if !(was_empty && out.len() == 0 && line.unicode_len() == 0) {
            out.push(line);
        }
        k += 1;
    }
    assert(ls.subrange(0, ls.len() as int) =~= ls);
}

/// Extracts a documentation block from the comments above a declaration:
/// comment markers and surrounding whitespace are cut from each line, empty
/// lines at either end of the block are dropped, and the block is in `///`
/// style only when all of its comments are line comments.
pub fn parse_comment(comments: &Vec<RawComment>) -> (r: CommentBlock)
    ensures
        r.lines_view() == extracted_lines(comments@),
        r.style == extracted_style(comments@),
{
    let mut lines: Vec<String> = Vec::new();
    let mut all_line = true;
    let mut i: usize = 0;
    while i < comments.len()
        invariant
            i <= comments@.len(),
            views(lines@) == gathered_lines(comments@.subrange(0, i as int)),
            all_line == forall|j: int| 0 <= j < i ==> comments@[j].kind == CommentKind::Line,
        decreases comments@.len() - i,
    {
        add_comment(&comments[i], &mut lines);
        assert(comments@.subrange(0, i + 1).drop_last() =~= comments@.subrange(0, i as int));
        if comments[i].kind == CommentKind::Block {
            all_line = false;
        }
        i += 1;
    }
    assert(comments@.subrange(0, i as int) =~= comments@);
    while lines.len() > 0 && lines[lines.len() - 1].unicode_len() == 0
        invariant
            skip_empty_suffix(views(lines@)) == extracted_lines(comments@),
        decreases lines@.len(),
    {
        let ghost before = lines@;
        lines.pop();
        assert(views(lines@) =~= views(before).drop_last());
    }
    let style = if lines.len() > 0 && all_line {
        CommentStyle::TripleSlash
    } else {
        CommentStyle::JsDoc
    };
    CommentBlock { style, lines }
}

/// The value of an annotation `tag value` on a comment line: the trimmed text
/// after the tag, when the trimmed line starts with the tag and that text is
/// not empty.
pub open spec fn annotation_value(line: Seq<char>, tag: Seq<char>) -> Option<Seq<char>> {
    let t = trim(line);
    if is_prefix(tag, t) && trim(t.subrange(tag.len() as int, t.len() as int)).len() > 0 {
        Some(trim(t.subrange(tag.len() as int, t.len() as int)))
    } else {
        None
    }
}

/// The values of every annotation `tag` in `lines`, in order.
pub open spec fn annotations(lines: Seq<Seq<char>>, tag: Seq<char>) -> Seq<Seq<char>>
    decreases lines.len(),
{
    if lines.len() == 0 {
        seq![]
    } else {
        let p = annotations(lines.drop_last(), tag);
        match annotation_value(lines.last(), tag) {
            Some(v) => p.push(v),
            None => p,
        }
    }
}

fn annotation(line: &str, tag: &str) -> (r: Option<String>)
    ensures
        match (r, annotation_value(line@, tag@)) {
            (Some(a), Some(b)) => a@ == b,
            (None, None) => true,
            _ => false,
        },
{
    let t = str_trim(line);
    if !str_starts_with(t.as_str(), tag) {
        return None;
    }
    let rest = str_trim(t.as_str().substring_char(tag.unicode_len(), t.unicode_len()));
    if rest.unicode_len() == 0 {
        None
    } else {
        Some(rest)
    }
}

impl CommentBlock {
    /// The sides named by `@workex:send` and by `@workex:recv` annotations of
    /// the comment, in order.
    pub fn parse_side_annotations(&self) -> (r: (Vec<String>, Vec<String>))
        ensures
            views(r.0@) == annotations(self.lines_view(), "@workex:send "@),
            views(r.1@) == annotations(self.lines_view(), "@workex:recv "@),
    {
        let mut send_side: Vec<String> = Vec::new();
        let mut recv_side: Vec<String> = Vec::new();
        let ghost ls = self.lines_view();
        let mut i: usize = 0;
        while i < self.lines.len()
            invariant
                i <= self.lines@.len(),
                ls == self.lines_view(),
                views(send_side@) == annotations(ls.subrange(0, i as int), "@workex:send "@),
                views(recv_side@) == annotations(ls.subrange(0, i as int), "@workex:recv "@),
            decreases self.lines@.len() - i,
        {
            let l = self.lines[i].as_str();
            proof {
                assert(ls.subrange(0, i + 1).drop_last() =~= ls.subrange(0, i as int));
                assert(ls.subrange(0, i + 1).last() == l@);
            }
            match annotation(l, "@workex:send ") {
                Some(v) => {
                    let ghost b = send_side@;
                    send_side.push(v);
                    assert(views(send_side@) =~= views(b).push(v@));
                },
                None => {},
            }
            match annotation(l, "@workex:recv ") {
                Some(v) => {
                    let ghost b = recv_side@;
                    recv_side.push(v);
                    assert(views(recv_side@) =~= views(b).push(v@));
                },
                None => {},
            }
            i += 1;
        }
        assert(ls.subrange(0, i as int) =~= ls);
        (send_side, recv_side)
    }
}

} // verus!
