//! Maps spans of the syntax tree to locations and snippets of source text.
use vstd::prelude::*;
use crate::analysis::{Location, decimal, push_decimal, push_str};
use crate::ast::Span;
use crate::query::{AstNode, node_span};
use crate::text::{chars_of, string_of, string_from};

verus! {

/// A line without its trailing carriage return, if it has one.
pub open spec fn strip_cr(x: Seq<char>) -> Seq<char> {
    if x.len() > 0 && x.last() == '\r' {
        x.drop_last()
    } else {
        x
    }
}

/// Splitting text into lines, left to right: the lines ended by a newline so
/// far, and the unfinished last piece.
pub open spec fn lines_state(s: Seq<char>) -> (Seq<Seq<char>>, Seq<char>)
    decreases s.len(),
{
    if s.len() == 0 {
        (Seq::empty(), Seq::empty())
    } else {
        let (ls, cur) = lines_state(s.drop_last());
        if s.last() == '\n' {
            (ls.push(strip_cr(cur)), Seq::empty())
        } else {
            (ls, cur.push(s.last()))
        }
    }
}

/// The lines of a text: split at each newline, a carriage return before the
/// newline dropped, and no empty line after a final newline.
pub open spec fn lines_of(s: Seq<char>) -> Seq<Seq<char>> {
    let (ls, cur) = lines_state(s);
    if cur.len() > 0 {
        ls.push(cur)
    } else {
        ls
    }
}

pub open spec fn min(a: int, b: int) -> int {
    if a <= b {
        a
    } else {
        b
    }
}

pub open spec fn max(a: int, b: int) -> int {
    if a >= b {
        a
    } else {
        b
    }
}

/// The lines with indices in `from..to`, each followed by a newline.
pub open spec fn full_lines(lines: Seq<Seq<char>>, from: int, to: int) -> Seq<char>
    decreases to - from,
{
    if from >= to {
        Seq::empty()
    } else {
        full_lines(lines, from, to - 1) + lines[to - 1] + seq!['\n']
    }
}

pub open spec fn snippet_unavailable() -> Seq<char> {
    "// Code snippet unavailable"@
}

pub open spec fn snippet_out_of_bounds() -> Seq<char> {
    "// Code snippet out of bounds"@
}

/// The source text that a span covers. On one line: the characters from the
/// start column to the end column, both clamped to the line. Across lines:
/// the first line from the start column, the lines between in full, and the
/// last line up to the end column, joined by newlines. A span without
/// position data, or past the last line, gives a placeholder text.
pub open spec fn snippet_of(lines: Seq<Seq<char>>, sp: Span) -> Seq<char> {
    let n = lines.len();
    let sl = sp.start_line as int;
    let el = sp.end_line as int;
    if sl == 0 || el == 0 {
        snippet_unavailable()
    } else if sl > n || el > n {
        snippet_out_of_bounds()
    } else if sl == el {
        let l = lines[sl - 1];
        let a = min(sp.start_column as int, l.len() as int);
        let b = max(a, min(sp.end_column as int, l.len() as int));
        l.subrange(a, b)
    } else {
        let f = lines[sl - 1];
        let z = lines[el - 1];
        f.subrange(min(sp.start_column as int, f.len() as int), f.len() as int) + seq!['\n']
            + full_lines(lines, sl, el - 1) + z.subrange(0, min(sp.end_column as int, z.len() as int))
    }
}

/// The location of a span in `file`: its start line, and 1-based columns; a
/// span without position data falls back to line 1 with nothing more.
pub open spec fn location_of(file: Seq<char>, sp: Span, l: Location) -> bool {
    &&& l.file@ == file
    &&& if sp.start_line > 0 {
        &&& l.line == sp.start_line
        &&& l.column == Some(if sp.start_column < usize::MAX { (sp.start_column + 1) as usize } else { sp.start_column })
        &&& l.end_line == Some(sp.end_line)
        &&& l.end_column == Some(if sp.end_column < usize::MAX { (sp.end_column + 1) as usize } else { sp.end_column })
    } else {
        &&& l.line == 1
        &&& l.column is None
        &&& l.end_line is None
        &&& l.end_column is None
    }
}

fn push_range(out: &mut Vec<char>, l: &Vec<char>, a: usize, b: usize)
    requires
        a <= b <= l@.len(),
    ensures
        final(out)@ == old(out)@ + l@.subrange(a as int, b as int),
{
    let mut k: usize = a;
    while k < b
        invariant
            a <= k <= b <= l@.len(),
            out@ == old(out)@ + l@.subrange(a as int, k as int),
        decreases b - k,
    {
        out.push(l[k]);
        assert(l@.subrange(a as int, k + 1) =~= l@.subrange(a as int, k as int).push(l@[k as int]));
        k += 1;
    }
}

fn min_usize(a: usize, b: usize) -> (r: usize)
    ensures
        r == min(a as int, b as int),
{
    if a <= b {
        a
    } else {
        b
    }
}

/// The number of newline characters in a text.
pub open spec fn newline_count(s: Seq<char>) -> nat
    decreases s.len(),
{
    if s.len() == 0 {
        0
    } else {
        newline_count(s.drop_last()) + if s.last() == '\n' { 1nat } else { 0nat }
    }
}

proof fn lemma_newline_count_concat(a: Seq<char>, b: Seq<char>)
    ensures
        newline_count(a + b) == newline_count(a) + newline_count(b),
    decreases b.len(),
{
    if b.len() > 0 {
        lemma_newline_count_concat(a, b.drop_last());
        assert((a + b).drop_last() =~= a + b.drop_last());
    } else {
        assert(a + b =~= a);
    }
}

proof fn lemma_no_newline(s: Seq<char>)
    requires
        forall|i: int| 0 <= i < s.len() ==> s[i] != '\n',
    ensures
        newline_count(s) == 0,
    decreases s.len(),
{
    if s.len() > 0 {
        lemma_no_newline(s.drop_last());
    }
}

proof fn lemma_lines_state_no_newline(s: Seq<char>)
    ensures
        forall|k: int, i: int|
            0 <= k < lines_state(s).0.len() && 0 <= i < lines_state(s).0[k].len()
                ==> #[trigger] lines_state(s).0[k][i] != '\n',
        forall|i: int| 0 <= i < lines_state(s).1.len() ==> #[trigger] lines_state(s).1[i] != '\n',
    decreases s.len(),
{
    if s.len() > 0 {
        let p = s.drop_last();
        lemma_lines_state_no_newline(p);
        let ls = lines_state(p).0;
        let cur = lines_state(p).1;
        if s.last() == '\n' {
            let ls2 = ls.push(strip_cr(cur));
            assert(lines_state(s).0 == ls2);
            assert forall|k: int, i: int| 0 <= k < ls2.len() && 0 <= i < ls2[k].len()
                implies #[trigger] ls2[k][i] != '\n' by {
                if k < ls.len() {
                    assert(ls2[k] == ls[k]);
                    assert(ls[k][i] != '\n');
                } else {
                    assert(strip_cr(cur)[i] == cur[i]);
                    assert(cur[i] != '\n');
                }
            }
        } else {
            let cur2 = cur.push(s.last());
            assert(lines_state(s).1 == cur2);
            assert forall|i: int| 0 <= i < cur2.len() implies #[trigger] cur2[i] != '\n' by {
                if i < cur.len() {
                    assert(cur[i] != '\n');
                }
            }
        }
    }
}

proof fn lemma_one_newline()
    ensures
        newline_count(seq!['\n']) == 1,
{
    assert(seq!['\n'].drop_last() =~= Seq::<char>::empty());
    assert(newline_count(Seq::<char>::empty()) == 0);
}

/// No line of a text holds a newline.
pub proof fn lemma_lines_have_no_newline(s: Seq<char>)
    ensures
        forall|k: int| 0 <= k < lines_of(s).len() ==> newline_count(#[trigger] lines_of(s)[k]) == 0,
{
    lemma_lines_state_no_newline(s);
    assert forall|k: int| 0 <= k < lines_of(s).len() implies newline_count(#[trigger] lines_of(s)[k]) == 0 by {
        let l = lines_of(s)[k];
        assert forall|i: int| 0 <= i < l.len() implies l[i] != '\n' by {
            if k < lines_state(s).0.len() {
                assert(lines_state(s).0[k][i] != '\n');
            } else {
                assert(lines_state(s).1[i] != '\n');
            }
        }
        lemma_no_newline(l);
    }
}

proof fn lemma_full_lines_newlines(lines: Seq<Seq<char>>, from: int, to: int)
    requires
        0 <= from,
        to <= lines.len(),
        forall|k: int| 0 <= k < lines.len() ==> newline_count(#[trigger] lines[k]) == 0,
    ensures
        newline_count(full_lines(lines, from, to)) == if from < to { to - from } else { 0 },
    decreases to - from,
{
    if from < to {
        lemma_full_lines_newlines(lines, from, to - 1);
        lemma_newline_count_concat(full_lines(lines, from, to - 1), lines[to - 1]);
        lemma_newline_count_concat(full_lines(lines, from, to - 1) + lines[to - 1], seq!['\n']);
        lemma_one_newline();
    }
}

/// A span inside one line gives exactly the characters between its start and
/// end columns.
pub proof fn law_snippet_single_line(source: Seq<char>, sp: Span)
    requires
        1 <= sp.start_line == sp.end_line <= lines_of(source).len(),
        sp.start_column <= sp.end_column <= lines_of(source)[sp.start_line - 1].len(),
    ensures
        snippet_of(lines_of(source), sp) == lines_of(source)[sp.start_line - 1].subrange(
            sp.start_column as int,
            sp.end_column as int,
        ),
{
}

/// A span over lines `a..=b` gives a snippet of `b - a + 1` lines, that is,
/// with `b - a` newlines.
pub proof fn law_snippet_line_count(source: Seq<char>, sp: Span)
    requires
        1 <= sp.start_line <= sp.end_line <= lines_of(source).len(),
    ensures
        newline_count(snippet_of(lines_of(source), sp)) == sp.end_line - sp.start_line,
{
    let lines = lines_of(source);
    lemma_lines_have_no_newline(source);
    let sl = sp.start_line as int;
    let el = sp.end_line as int;
    if sl == el {
        let l = lines[sl - 1];
        let a = min(sp.start_column as int, l.len() as int);
        let b = max(a, min(sp.end_column as int, l.len() as int));
        assert(newline_count(l) == 0);
        assert forall|i: int| 0 <= i < l.subrange(a, b).len() implies l.subrange(a, b)[i] != '\n' by {
            if l[a + i] == '\n' {
                let k = a + i;
                // a newline in the line would be counted
                assert(l =~= l.subrange(0, k) + seq![l[k]] + l.subrange(k + 1, l.len() as int));
                lemma_newline_count_concat(l.subrange(0, k) + seq![l[k]], l.subrange(k + 1, l.len() as int));
                lemma_newline_count_concat(l.subrange(0, k), seq![l[k]]);
                assert(seq![l[k]].drop_last() =~= Seq::<char>::empty());
            }
        }
        lemma_no_newline(l.subrange(a, b));
    } else {
        let f = lines[sl - 1];
        let z = lines[el - 1];
        let p1 = f.subrange(min(sp.start_column as int, f.len() as int), f.len() as int);
        let p3 = z.subrange(0, min(sp.end_column as int, z.len() as int));
        assert forall|i: int| 0 <= i < p1.len() implies p1[i] != '\n' by {
            let k = min(sp.start_column as int, f.len() as int) + i;
            if f[k] == '\n' {
                assert(f =~= f.subrange(0, k) + seq![f[k]] + f.subrange(k + 1, f.len() as int));
                lemma_newline_count_concat(f.subrange(0, k) + seq![f[k]], f.subrange(k + 1, f.len() as int));
                lemma_newline_count_concat(f.subrange(0, k), seq![f[k]]);
                assert(seq![f[k]].drop_last() =~= Seq::<char>::empty());
            }
        }
        assert(newline_count(z) == 0);
        assert forall|i: int| 0 <= i < p3.len() implies p3[i] != '\n' by {
            if z[i] == '\n' {
                assert(z =~= z.subrange(0, i) + seq![z[i]] + z.subrange(i + 1, z.len() as int));
                lemma_newline_count_concat(z.subrange(0, i) + seq![z[i]], z.subrange(i + 1, z.len() as int));
                lemma_newline_count_concat(z.subrange(0, i), seq![z[i]]);
                assert(seq![z[i]].drop_last() =~= Seq::<char>::empty());
            }
        }
        lemma_no_newline(p1);
        lemma_no_newline(p3);
        lemma_full_lines_newlines(lines, sl, el - 1);
        lemma_one_newline();
        lemma_newline_count_concat(p1, seq!['\n']);
        lemma_newline_count_concat(p1 + seq!['\n'], full_lines(lines, sl, el - 1));
        lemma_newline_count_concat(p1 + seq!['\n'] + full_lines(lines, sl, el - 1), p3);
    }
}

/// `s` right-aligned in a field of `w` characters.
pub open spec fn pad_left(s: Seq<char>, w: nat) -> Seq<char> {
    if s.len() >= w {
        s
    } else {
        Seq::new((w - s.len()) as nat, |i: int| ' ') + s
    }
}

/// One line of a context listing: an arrow for the lines of the span, the
/// line number right-aligned in three columns, a bar and the line.
pub open spec fn context_line(lines: Seq<Seq<char>>, sl: int, el: int, num: int) -> Seq<char> {
    (if sl <= num <= el {
        "\u{2192} "@
    } else {
        "  "@
    }) + pad_left(decimal(num as nat), 3) + " | "@ + lines[num - 1] + seq!['\n']
}

/// The context lines numbered `from..to`.
pub open spec fn context_lines_text(lines: Seq<Seq<char>>, sl: int, el: int, from: int, to: int) -> Seq<char>
    decreases to - from,
{
    if from >= to {
        Seq::empty()
    } else {
        context_lines_text(lines, sl, el, from, to - 1) + context_line(lines, sl, el, to - 1)
    }
}

pub open spec fn context_unavailable() -> Seq<char> {
    "// Context unavailable"@
}

/// The lines of a span with `k` lines of context on each side, clamped to
/// the text; the lines of the span are marked.
pub open spec fn context_of(lines: Seq<Seq<char>>, sp: Span, k: nat) -> Seq<char> {
    let sl = sp.start_line as int;
    let el = sp.end_line as int;
    if sl == 0 || el == 0 {
        context_unavailable()
    } else {
        let from = if sl - k >= 1 { sl - k } else { 1 };
        let to = if el + k <= lines.len() { el + k } else { lines.len() as int };
        context_lines_text(lines, sl, el, from, to + 1)
    }
}

fn push_padded_decimal(out: &mut Vec<char>, n: usize)
    ensures
        final(out)@ == old(out)@ + pad_left(decimal(n as nat), 3),
{
    let mut digits: Vec<char> = Vec::new();
    push_decimal(n, &mut digits);
    assert(digits@ =~= decimal(n as nat));
    let mut k: usize = digits.len();
    let ghost o = out@;
    while k < 3
        invariant
            digits@ == decimal(n as nat),
            digits@.len() <= k <= 3 || (k == digits@.len() && k >= 3),
            out@ == o + Seq::new((k - digits@.len()) as nat, |i: int| ' '),
        decreases 3 - k,
    {
        out.push(' ');
        assert(out@ =~= o + Seq::new((k + 1 - digits@.len()) as nat, |i: int| ' '));
        k += 1;
    }
    out.append(&mut digits);
    assert(out@ =~= o + pad_left(decimal(n as nat), 3));
}

/// The span of a node, or a span without position data for a node that has
/// none.
pub open spec fn span_or_none(n: AstNode) -> Span {
    match node_span(n) {
        Some(sp) => sp,
        None => Span { start_line: 0, start_column: 0, end_line: 0, end_column: 0 },
    }
}

pub struct SpanExtractor {
    source_code: String,
    file_path: String,
    lines: Vec<Vec<char>>,
}

impl SpanExtractor {
    pub closed spec fn source(&self) -> Seq<char> {
        self.source_code@
    }

    pub closed spec fn file(&self) -> Seq<char> {
        self.file_path@
    }

    /// The lines of the source, as views.
    pub closed spec fn line_views(&self) -> Seq<Seq<char>> {
        self.lines@.map_values(|l: Vec<char>| l@)
    }

    pub closed spec fn wf(&self) -> bool {
        self.line_views() == lines_of(self.source_code@)
    }

    pub fn new(source_code: String, file_path: String) -> (r: SpanExtractor)
        ensures
            r.wf(),
            r.line_views() == lines_of(source_code@),
            r.source() == source_code@,
            r.file() == file_path@,
    {
        let chars = chars_of(source_code.as_str());
        let mut lines: Vec<Vec<char>> = Vec::new();
        let mut cur: Vec<char> = Vec::new();
        let mut i: usize = 0;
        while i < chars.len()
            invariant
                chars@ == source_code@,
                i <= chars@.len(),
                lines_state(chars@.take(i as int)) == (lines@.map_values(|l: Vec<char>| l@), cur@),
            decreases chars@.len() - i,
        {
            let ghost pre = chars@.take(i as int);
            assert(chars@.take(i + 1).drop_last() =~= pre);
            let c = chars[i];
            if c == '\n' {
                let mut done = cur;
                let ghost raw = done@;
                if done.len() > 0 && done[done.len() - 1] == '\r' {
                    done.pop();
                }
                assert(done@ == strip_cr(raw));
                lines.push(done);
                cur = Vec::new();
                assert(lines@.map_values(|l: Vec<char>| l@) =~= lines_state(pre).0.push(strip_cr(raw)));
            } else {
                cur.push(c);
            }
            i += 1;
        }
        assert(chars@.take(i as int) =~= chars@);
        if cur.len() > 0 {
            lines.push(cur);
        }
        assert(lines@.map_values(|l: Vec<char>| l@) =~= lines_of(source_code@));
        SpanExtractor { source_code, file_path, lines }
    }

    /// The location of a span in this extractor's file.
    pub fn span_to_location(&self, sp: Span) -> (r: Location)
        ensures
            location_of(self.file(), sp, r),
    {
        let file = string_from(self.file_path.as_str());
        if sp.start_line > 0 {
            Location {
                file,
                line: sp.start_line,
                column: Some(sp.start_column.saturating_add(1)),
                end_line: Some(sp.end_line),
                end_column: Some(sp.end_column.saturating_add(1)),
            }
        } else {
            Location { file, line: 1, column: None, end_line: None, end_column: None }
        }
    }

    /// The source's lines.
    pub(crate) fn line_vecs(&self) -> (r: &Vec<Vec<char>>)
        requires
            self.wf(),
        ensures
            r@.map_values(|l: Vec<char>| l@) == lines_of(self.source()),
    {
        &self.lines
    }

    /// The location of a node; one without a span falls back to line 1.
    pub fn extract_location(&self, node: &AstNode) -> (r: Location)
        ensures
            location_of(self.file(), span_or_none(*node), r),
    {
        let sp = match node.span() {
            Some(sp) => sp,
            None => Span { start_line: 0, start_column: 0, end_line: 0, end_column: 0 },
        };
        self.span_to_location(sp)
    }

    /// The source text of a node; one without a span gets the placeholder
    /// text for missing positions.
    pub fn extract_snippet(&self, node: &AstNode) -> (r: String)
        requires
            self.wf(),
        ensures
            r@ == snippet_of(self.line_views(), span_or_none(*node)),
    {
        let sp = match node.span() {
            Some(sp) => sp,
            None => Span { start_line: 0, start_column: 0, end_line: 0, end_column: 0 },
        };
        self.span_to_snippet(sp)
    }

    /// The lines of a span with `context_lines` lines of context on each
    /// side, for diagnostics; never fails, see `context_of`.
    pub fn extract_context(&self, sp: Span, context_lines: usize) -> (r: String)
        requires
            self.wf(),
        ensures
            r@ == context_of(self.line_views(), sp, context_lines as nat),
    {
        if sp.start_line == 0 || sp.end_line == 0 {
            return string_from("// Context unavailable");
        }
        let ghost lv = self.line_views();
        let n = self.lines.len();
        let from = if sp.start_line > context_lines { sp.start_line - context_lines } else { 1 };
        let to = if context_lines <= n && sp.end_line <= n - context_lines { sp.end_line + context_lines } else { n };
        let mut out: Vec<char> = Vec::new();
        if from > to {
            return string_of(out.as_slice());
        }
        let mut idx = from - 1;
        while idx < to
            invariant
                self.wf(),
                lv == self.line_views(),
                n == lv.len(),
                1 <= from,
                from - 1 <= idx <= to,
                to <= n,
                out@ == context_lines_text(lv, sp.start_line as int, sp.end_line as int, from as int, idx + 1),
            decreases to - idx,
        {
            let num = idx + 1;
            let ghost before = out@;
            if sp.start_line <= num && num <= sp.end_line {
                push_str(&mut out, "\u{2192} ");
            } else {
                push_str(&mut out, "  ");
            }
            push_padded_decimal(&mut out, num);
            push_str(&mut out, " | ");
            let l = &self.lines[num - 1];
            assert(l@ == lv[num - 1]);
            let mut k: usize = 0;
            let ghost mid = out@;
            while k < l.len()
                invariant
                    k <= l@.len(),
                    out@ == mid + l@.subrange(0, k as int),
                decreases l@.len() - k,
            {
                out.push(l[k]);
                assert(out@ =~= mid + l@.subrange(0, k + 1));
                k += 1;
            }
            out.push('\n');
            assert(l@.subrange(0, l@.len() as int) =~= l@);
            assert(out@ =~= before + context_line(lv, sp.start_line as int, sp.end_line as int, num as int));
            idx += 1;
        }
        string_of(out.as_slice())
    }

    /// The source text that a span covers; never fails, see `snippet_of`.
    pub fn span_to_snippet(&self, sp: Span) -> (r: String)
        requires
            self.wf(),
        ensures
            r@ == snippet_of(self.line_views(), sp),
    {
        let n = self.lines.len();
        if sp.start_line == 0 || sp.end_line == 0 {
            return string_from("// Code snippet unavailable");
        }
        if sp.start_line > n || sp.end_line > n {
            return string_from("// Code snippet out of bounds");
        }
        let ghost lv = self.line_views();
        let mut out: Vec<char> = Vec::new();
        if sp.start_line == sp.end_line {
            let l = &self.lines[sp.start_line - 1];
            assert(l@ == lv[sp.start_line - 1]);
            let a = min_usize(sp.start_column, l.len());
            let e = min_usize(sp.end_column, l.len());
            let b = if a >= e { a } else { e };
            push_range(&mut out, l, a, b);
            assert(out@ =~= snippet_of(lv, sp));
        } else {
            let f = &self.lines[sp.start_line - 1];
            assert(f@ == lv[sp.start_line - 1]);
            let a = min_usize(sp.start_column, f.len());
            push_range(&mut out, f, a, f.len());
            out.push('\n');
            let ghost head = out@;
            let mut k: usize = sp.start_line;
            let last = sp.end_line - 1;
            while k < last
                invariant
                    self.wf(),
                    lv == self.line_views(),
                    n == lv.len(),
                    1 <= sp.start_line <= k,
                    k <= last || k == sp.start_line,
                    last < n,
                    out@ == head + full_lines(lv, sp.start_line as int, k as int),
                decreases last - k,
            {
                let l = &self.lines[k];
                assert(l@ == lv[k as int]);
                push_range(&mut out, l, 0, l.len());
                out.push('\n');
                assert(l@.subrange(0, l@.len() as int) =~= l@);
                assert(out@ =~= head + full_lines(lv, sp.start_line as int, k + 1));
                k += 1;
            }
            proof {
                if last < sp.start_line {
                    assert(full_lines(lv, sp.start_line as int, k as int) =~= Seq::<char>::empty());
                    assert(full_lines(lv, sp.start_line as int, last as int) =~= Seq::<char>::empty());
                }
            }
            let z = &self.lines[sp.end_line - 1];
            assert(z@ == lv[sp.end_line - 1]);
            let e = min_usize(sp.end_column, z.len());
            push_range(&mut out, z, 0, e);
            assert(out@ =~= snippet_of(lv, sp));
        }
        string_of(out.as_slice())
    }
}

} // verus!
