//! Text literals that span several lines: the indent that all lines share
//! is no part of the text.

use vstd::prelude::*;
use vstd::string::*;
use crate::syntax::{clone_expr, clone_fields, fields_of, Expr, Fields, Name};

verus! {

/// A text with interpolations: as in a text literal, each interpolation
/// with the text in front of it, and the text after the last one.
#[derive(Debug, PartialEq, Eq)]
pub struct InterpolatedText {
    pub chunks: Vec<(String, Expr)>,
    pub tail: String,
}

/// The model of an interpolated text.
pub type Line = (Fields, Name);

impl View for InterpolatedText {
    type V = Line;

    open spec fn view(&self) -> Line {
        (fields_of(self.chunks), self.tail@)
    }
}

/// The model of a list of lines.
pub open spec fn lines_of(lines: Vec<InterpolatedText>) -> Seq<Line> {
    Seq::new(lines.len() as nat, |i: int| lines[i]@)
}

/// A space or a tab.
pub open spec fn is_indent(c: char) -> bool {
    c == ' ' || c == '\t'
}

/// The text that a line starts with: up to its first interpolation.
pub open spec fn spec_head(l: Line) -> Name {
    if l.0.len() > 0 {
        l.0[0].0
    } else {
        l.1
    }
}

/// A line without text and without interpolations.
pub open spec fn spec_is_empty(l: Line) -> bool {
    l.0.len() == 0 && l.1.len() == 0
}

/// Where the run of spaces and tabs that starts at `from` ends.
pub open spec fn indent_end(s: Name, from: nat) -> nat
    decreases s.len() - from,
{
    if from >= s.len() || !is_indent(s[from as int]) {
        from
    } else {
        indent_end(s, from + 1)
    }
}

/// Where `a` and `b` stop being the same, from `from` on and up to
/// `limit` at most.
pub open spec fn common_end(a: Name, b: Name, limit: nat, from: nat) -> nat
    decreases limit - from,
{
    if from >= limit || from >= a.len() || from >= b.len() || a[from as int] != b[from as int] {
        from
    } else {
        common_end(a, b, limit, from + 1)
    }
}

/// The length of the indent that the first `k` lines share with `last`:
/// the leading spaces and tabs of `last`, cut down to what each line that
/// is not empty starts with.
pub open spec fn spec_shared(lines: Seq<Line>, last: Name, k: nat) -> nat
    decreases k,
{
    if k == 0 || k > lines.len() {
        indent_end(last, 0)
    } else {
        let p = spec_shared(lines, last, (k - 1) as nat);
        if spec_is_empty(lines[k - 1]) {
            p
        } else {
            common_end(last, spec_head(lines[k - 1]), p, 0)
        }
    }
}

/// The line without its first `p` characters; an empty line as it is.
pub open spec fn spec_trim_line(l: Line, p: nat) -> Line {
    if spec_is_empty(l) {
        l
    } else if l.0.len() > 0 {
        (l.0.update(0, (l.0[0].0.skip(p as int), l.0[0].1)), l.1)
    } else {
        (l.0, l.1.skip(p as int))
    }
}

/// The lines without the indent that they share with the last of them.
/// Empty lines do not count, and stay as they are.
pub open spec fn spec_trim_indent(lines: Seq<Line>) -> Seq<Line> {
    let p = spec_shared(lines, spec_head(lines.last()), lines.len());
    if p == 0 {
        lines
    } else {
        Seq::new(lines.len(), |i: int| spec_trim_line(lines[i], p))
    }
}

proof fn lemma_common_end_bound(a: Name, b: Name, limit: nat, from: nat)
    requires
        from <= limit,
        from <= b.len(),
    ensures
        common_end(a, b, limit, from) <= limit,
        common_end(a, b, limit, from) <= b.len(),
    decreases limit - from,
{
    if !(from >= limit || from >= a.len() || from >= b.len() || a[from as int] != b[from as int]) {
        lemma_common_end_bound(a, b, limit, from + 1);
    }
}

proof fn lemma_shared_bound(lines: Seq<Line>, last: Name, k: nat, i: int)
    requires
        0 <= i < k <= lines.len(),
        !spec_is_empty(lines[i]),
    ensures
        spec_shared(lines, last, k) <= spec_head(lines[i]).len(),
    decreases k,
{
    let p = spec_shared(lines, last, (k - 1) as nat);
    if !spec_is_empty(lines[k - 1]) {
        lemma_common_end_bound(last, spec_head(lines[k - 1]), p, 0);
    }
    if i < k - 1 {
        lemma_shared_bound(lines, last, (k - 1) as nat, i);
    }
}

impl InterpolatedText {
    /// A copy of the text that the line starts with.
    pub fn head(&self) -> (r: String)
        ensures
            r@ == spec_head(self@),
    {
        if self.chunks.len() > 0 {
            self.chunks[0].0.clone()
        } else {
            self.tail.clone()
        }
    }

    /// Whether the line has neither text nor interpolations.
    pub fn is_empty(&self) -> (r: bool)
        ensures
            r == spec_is_empty(self@),
    {
        self.chunks.len() == 0 && self.tail.as_str().unicode_len() == 0
    }
}

fn leading_indent(s: &String) -> (r: usize)
    ensures
        r == indent_end(s@, 0),
{
    let n = s.as_str().unicode_len();
    let mut i: usize = 0;
    while i < n
        invariant
            i <= n,
            n == s@.len(),
            indent_end(s@, 0) == indent_end(s@, i as nat),
        decreases n - i,
    {
        let c = s.as_str().get_char(i);
        if !(c == ' ' || c == '\t') {
            return i;
        }
        i += 1;
    }
    i
}

fn common_prefix(a: &String, b: &String, limit: usize) -> (r: usize)
    ensures
        r == common_end(a@, b@, limit as nat, 0),
{
    let na = a.as_str().unicode_len();
    let nb = b.as_str().unicode_len();
    let mut i: usize = 0;
    while i < limit && i < na && i < nb
        invariant
            na == a@.len(),
            nb == b@.len(),
            common_end(a@, b@, limit as nat, 0) == common_end(a@, b@, limit as nat, i as nat),
        decreases limit - i,
    {
        if a.as_str().get_char(i) != b.as_str().get_char(i) {
            return i;
        }
        i += 1;
    }
    i
}

fn without_prefix(s: &String, p: usize) -> (r: String)
    requires
        p <= s@.len(),
    ensures
        r@ == s@.skip(p as int),
{
    let n = s.as_str().unicode_len();
    String::from_str(s.as_str().substring_char(p, n))
}

fn trim_line(l: &InterpolatedText, p: usize) -> (r: InterpolatedText)
    requires
        !spec_is_empty(l@) ==> p <= spec_head(l@).len(),
    ensures
        r@ == spec_trim_line(l@, p as nat),
{
    if l.is_empty() {
        InterpolatedText { chunks: clone_fields(&l.chunks), tail: l.tail.clone() }
    } else if l.chunks.len() > 0 {
        let mut chunks: Vec<(String, Expr)> = Vec::new();
        chunks.push((without_prefix(&l.chunks[0].0, p), clone_expr(&l.chunks[0].1)));
        let mut i: usize = 1;
        while i < l.chunks.len()
            invariant
                1 <= i <= l.chunks.len(),
                chunks.len() == i,
                chunks[0].0@ == l.chunks[0].0@.skip(p as int),
                chunks[0].1@ == l.chunks[0].1@,
                forall|j: int|
                    1 <= j < i ==> chunks[j].0@ == l.chunks[j].0@ && chunks[j].1@ == l.chunks[j].1@,
            decreases l.chunks.len() - i,
        {
            chunks.push((l.chunks[i].0.clone(), clone_expr(&l.chunks[i].1)));
            i += 1;
        }
        assert(fields_of(chunks) =~= fields_of(l.chunks).update(
            0,
            (l.chunks[0].0@.skip(p as int), l.chunks[0].1@),
        ));
        InterpolatedText { chunks, tail: l.tail.clone() }
    } else {
        InterpolatedText { chunks: clone_fields(&l.chunks), tail: without_prefix(&l.tail, p) }
    }
}

/// Takes the indent that the lines share off each of them, as the
/// meaning of a text literal over several lines has it: the indent is
/// that of the last line, as far as every line that is not empty starts
/// with it.
pub fn trim_indent(lines: &mut Vec<InterpolatedText>)
    requires
        old(lines).len() > 0,
    ensures
        lines_of(*final(lines)) == spec_trim_indent(lines_of(*old(lines))),
{
    let ghost before = lines_of(*lines);
    let last = lines[lines.len() - 1].head();
    let mut p = leading_indent(&last);
    let mut i: usize = 0;
    while i < lines.len()
        invariant
            i <= lines.len(),
            lines_of(*lines) == before,
            p == spec_shared(before, last@, i as nat),
        decreases lines.len() - i,
    {
        if !lines[i].is_empty() {
            let h = lines[i].head();
            p = common_prefix(&last, &h, p);
        }
        i += 1;
    }
    if p == 0 {
        return;
    }
    let mut out: Vec<InterpolatedText> = Vec::new();
    let mut k: usize = 0;
    while k < lines.len()
        invariant
            k <= lines.len(),
            out.len() == k,
            lines_of(*lines) == before,
            p == spec_shared(before, last@, lines.len() as nat),
            forall|j: int| 0 <= j < k ==> out[j]@ == spec_trim_line(before[j], p as nat),
        decreases lines.len() - k,
    {
        proof {
            if !spec_is_empty(before[k as int]) {
                lemma_shared_bound(before, last@, lines.len() as nat, k as int);
            }
        }
        out.push(trim_line(&lines[k], p));
        k += 1;
    }
    assert(lines_of(out) =~= spec_trim_indent(before));
    *lines = out;
}

} // verus!
