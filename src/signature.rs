//! The header of a definition, read from the source lines where it starts.
use vstd::prelude::*;
use crate::ast::Span;
use crate::span_utils::{SpanExtractor, lines_of};
use crate::text::{string_from, string_of};

verus! {

/// The Unicode `White_Space` property: tab to carriage return, space, next
/// line, no-break space, ogham space mark, en quad to hair space, line and
/// paragraph separators, narrow no-break space, medium mathematical space
/// and ideographic space.
pub open spec fn whitespace_char(c: char) -> bool {
    let u = c as u32;
    (0x09 <= u <= 0x0D) || u == 0x20 || u == 0x85 || u == 0xA0 || u == 0x1680 || (0x2000 <= u <= 0x200A)
        || u == 0x2028 || u == 0x2029 || u == 0x202F || u == 0x205F || u == 0x3000
}

fn char_is_whitespace(c: char) -> (r: bool)
    ensures
        r == whitespace_char(c),
{
    let u = c as u32;
    (0x09 <= u && u <= 0x0D) || u == 0x20 || u == 0x85 || u == 0xA0 || u == 0x1680 || (0x2000 <= u && u <= 0x200A)
        || u == 0x2028 || u == 0x2029 || u == 0x202F || u == 0x205F || u == 0x3000
}

pub open spec fn trim_start(s: Seq<char>) -> Seq<char>
    decreases s.len(),
{
    if s.len() > 0 && whitespace_char(s[0]) {
        trim_start(s.subrange(1, s.len() as int))
    } else {
        s
    }
}

pub open spec fn trim_end(s: Seq<char>) -> Seq<char>
    decreases s.len(),
{
    if s.len() > 0 && whitespace_char(s.last()) {
        trim_end(s.drop_last())
    } else {
        s
    }
}

pub open spec fn trim(s: Seq<char>) -> Seq<char> {
    trim_end(trim_start(s))
}

pub open spec fn starts_with(s: Seq<char>, p: Seq<char>) -> bool {
    p.len() <= s.len() && s.take(p.len() as int) == p
}

pub open spec fn ends_with_char(s: Seq<char>, c: char) -> bool {
    s.len() > 0 && s.last() == c
}

/// The text before the first `{`, trimmed; all of it if there is none.
pub open spec fn before_brace(s: Seq<char>) -> Seq<char> {
    if s.contains('{') {
        let p = choose|p: int| 0 <= p < s.len() && s[p] == '{' && forall|q: int| 0 <= q < p ==> s[q] != '{';
        trim(s.take(p))
    } else {
        s
    }
}

/// A header that does not end its line, continued with the next lines
/// (trimmed, joined by spaces) up to one that holds `{` or `;`, at most up
/// to line index `stop`.
pub open spec fn joined(lines: Seq<Seq<char>>, sig: Seq<char>, idx: int, stop: int) -> Seq<char>
    decreases stop - idx,
{
    if idx >= stop {
        sig
    } else {
        let next = sig + seq![' '] + trim(lines[idx]);
        if lines[idx].contains('{') || lines[idx].contains(';') {
            next
        } else {
            joined(lines, next, idx + 1, stop)
        }
    }
}

/// The header of the definition starting on a span's first line: for a
/// function, its signature (continued over up to three more lines) before
/// the body; for a struct, the line before its brace; else the line, trimmed.
pub open spec fn definition_signature(lines: Seq<Seq<char>>, sp: Span) -> Seq<char> {
    let sl = sp.start_line as int;
    let n = lines.len() as int;
    if sl == 0 {
        "// Signature unavailable"@
    } else if sl > n {
        "// Signature out of bounds"@
    } else {
        let d = lines[sl - 1];
        let t = trim_start(d);
        if starts_with(t, "pub fn"@) || starts_with(t, "fn"@) {
            let sig = trim(d);
            let full = if !ends_with_char(sig, '{') && !ends_with_char(sig, ';') {
                joined(lines, sig, sl, if n <= sl + 3 { n } else { sl + 3 })
            } else {
                sig
            };
            before_brace(full)
        } else if starts_with(t, "struct"@) || starts_with(t, "pub struct"@) {
            before_brace(trim(d))
        } else {
            trim(d)
        }
    }
}

fn trim_start_chars(s: &Vec<char>) -> (r: Vec<char>)
    ensures
        r@ == trim_start(s@),
{
    let mut a: usize = 0;
    assert(s@.subrange(0, s@.len() as int) =~= s@);
    while a < s.len() && char_is_whitespace(s[a])
        invariant
            a <= s@.len(),
            trim_start(s@) == trim_start(s@.subrange(a as int, s@.len() as int)),
        decreases s@.len() - a,
    {
        assert(s@.subrange(a as int, s@.len() as int).subrange(1, s@.len() - a) =~= s@.subrange(a + 1, s@.len() as int));
        a += 1;
    }
    let mut out: Vec<char> = Vec::new();
    let mut k = a;
    while k < s.len()
        invariant
            a <= k <= s@.len(),
            out@ == s@.subrange(a as int, k as int),
        decreases s@.len() - k,
    {
        out.push(s[k]);
        assert(out@ =~= s@.subrange(a as int, k + 1));
        k += 1;
    }
    out
}

fn trim_end_chars(s: Vec<char>) -> (r: Vec<char>)
    ensures
        r@ == trim_end(s@),
{
    let mut out = s;
    let ghost s0 = out@;
    while out.len() > 0 && char_is_whitespace(out[out.len() - 1])
        invariant
            trim_end(s0) == trim_end(out@),
        decreases out@.len(),
    {
        out.pop();
    }
    out
}

fn trim_chars(s: &Vec<char>) -> (r: Vec<char>)
    ensures
        r@ == trim(s@),
{
    trim_end_chars(trim_start_chars(s))
}

fn starts_with_exec(s: &Vec<char>, p: &str) -> (r: bool)
    ensures
        r == starts_with(s@, p@),
{
    let pv = crate::text::chars_of(p);
    if pv.len() > s.len() {
        return false;
    }
    let mut i: usize = 0;
    while i < pv.len()
        invariant
            pv@ == p@,
            pv@.len() <= s@.len(),
            i <= pv@.len(),
            forall|j: int| 0 <= j < i ==> s@[j] == pv@[j],
        decreases pv@.len() - i,
    {
        if s[i] != pv[i] {
            assert(s@.take(pv@.len() as int)[i as int] != pv@[i as int]);
            return false;
        }
        i += 1;
    }
    assert(s@.take(pv@.len() as int) =~= pv@);
    true
}

fn find_char(s: &Vec<char>, c: char) -> (r: Option<usize>)
    ensures
        match r {
            Some(p) => p < s@.len() && s@[p as int] == c && forall|q: int| 0 <= q < p ==> s@[q] != c,
            None => !s@.contains(c),
        },
{
    let mut i: usize = 0;
    while i < s.len()
        invariant
            i <= s@.len(),
            forall|q: int| 0 <= q < i ==> s@[q] != c,
        decreases s@.len() - i,
    {
        if s[i] == c {
            return Some(i);
        }
        i += 1;
    }
    None
}

fn before_brace_exec(s: Vec<char>) -> (r: Vec<char>)
    ensures
        r@ == before_brace(s@),
{
    match find_char(&s, '{') {
        Some(p) => {
            proof {
                assert(s@[p as int] == '{');
                assert(s@.contains('{'));
                let chosen = choose|q: int| 0 <= q < s@.len() && s@[q] == '{' && forall|x: int| 0 <= x < q ==> s@[x] != '{';
                if chosen < p as int {
                    assert(s@[chosen] != '{');
                } else if chosen > p as int {
                    assert(s@[p as int] != '{');
                }
                assert(chosen == p as int);
            }
            let mut head: Vec<char> = Vec::new();
            let mut k: usize = 0;
            while k < p
                invariant
                    k <= p < s@.len(),
                    head@ == s@.take(k as int),
                decreases p - k,
            {
                head.push(s[k]);
                assert(head@ =~= s@.take(k + 1));
                k += 1;
            }
            trim_chars(&head)
        },
        None => s,
    }
}

impl SpanExtractor {
    /// The header of the definition that starts at a span, see
    /// `definition_signature`.
    pub fn extract_definition_signature(&self, sp: Span) -> (r: String)
        requires
            self.wf(),
        ensures
            r@ == definition_signature(lines_of(self.source()), sp),
    {
        let lines = self.line_vecs();
        let ghost lv = lines_of(self.source());
        let n = lines.len();
        if sp.start_line == 0 {
            return string_from("// Signature unavailable");
        }
        if sp.start_line > n {
            return string_from("// Signature out of bounds");
        }
        let d = &lines[sp.start_line - 1];
        assert(d@ == lv[sp.start_line - 1]);
        let head = trim_start_chars(d);
        let sig = trim_chars(d);
        if starts_with_exec(&head, "pub fn") || starts_with_exec(&head, "fn") {
            let mut full = sig;
            let ends = full.len() > 0 && (full[full.len() - 1] == '{' || full[full.len() - 1] == ';');
            if !ends {
                let stop = if n - sp.start_line <= 3 { n } else { sp.start_line + 3 };
                let mut idx = sp.start_line;
                let mut done = false;
                while idx < stop && !done
                    invariant
                        stop <= n,
                        n == lv.len(),
                        lines@.map_values(|l: Vec<char>| l@) == lv,
                        sp.start_line <= idx <= stop,
                        joined(lv, trim(d@), sp.start_line as int, stop as int) == if done {
                            full@
                        } else {
                            joined(lv, full@, idx as int, stop as int)
                        },
                    decreases (stop - idx) as int + if done { 0int } else { 1int },
                {
                    let l = &lines[idx];
                    assert(l@ == lv[idx as int]);
                    let ghost before = full@;
                    let mut t = trim_chars(l);
                    full.push(' ');
                    full.append(&mut t);
                    assert(full@ =~= before + seq![' '] + trim(lv[idx as int]));
                    let brace = find_char(l, '{');
                    let semi = find_char(l, ';');
                    if brace.is_some() || semi.is_some() {
                        done = true;
                    } else {
                        idx += 1;
                    }
                }
            }
            let r = before_brace_exec(full);
            return string_of(r.as_slice());
        }
        if starts_with_exec(&head, "struct") || starts_with_exec(&head, "pub struct") {
            let r = before_brace_exec(sig);
            return string_of(r.as_slice());
        }
        string_of(sig.as_slice())
    }
}

} // verus!
