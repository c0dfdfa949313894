use vstd::prelude::*;
use crate::text::trim_end;

verus! {

/// A position in a file: a line and a column, both counted from 0.
pub type Location = (usize, usize);

/// Whether location `a` comes no later than location `b`.
pub open spec fn loc_le(a: Location, b: Location) -> bool {
    a.0 < b.0 || (a.0 == b.0 && a.1 <= b.1)
}

/// The earlier of two locations.
pub open spec fn loc_min(a: Location, b: Location) -> Location {
    if loc_le(a, b) {
        a
    } else {
        b
    }
}

/// The later of two locations.
pub open spec fn loc_max(a: Location, b: Location) -> Location {
    if loc_le(a, b) {
        b
    } else {
        a
    }
}

/// Whether location `a` comes no later than location `b`.
pub fn location_le(a: Location, b: Location) -> (r: bool)
    ensures
        r == loc_le(a, b),
{
    a.0 < b.0 || (a.0 == b.0 && a.1 <= b.1)
}

/// A stretch of text in a source file: from `start` to `end`, both inclusive,
/// also given as offsets from the beginning of the file, counted in bytes of
/// its UTF-8 encoding.
#[derive(Debug)]
pub struct Span {
    /// The name of the file, as reports show it.
    pub file: String,
    pub start: Location,
    pub end: Location,
    pub start_byte: usize,
    pub end_byte: usize,
}

impl Clone for Span {
    fn clone(&self) -> (res: Self)
        ensures
            res == *self,
    {
        Span {
            file: self.file.clone(),
            start: self.start,
            end: self.end,
            start_byte: self.start_byte,
            end_byte: self.end_byte,
        }
    }
}

impl Span {
    /// The smallest stretch that covers both spans (in the file of `self`).
    pub open spec fn spec_sup(&self, other: &Span) -> Span {
        Span {
            file: self.file,
            start_byte: if self.start_byte <= other.start_byte {
                self.start_byte
            } else {
                other.start_byte
            },
            end_byte: if self.end_byte >= other.end_byte {
                self.end_byte
            } else {
                other.end_byte
            },
            start: loc_min(self.start, other.start),
            end: loc_max(self.end, other.end),
        }
    }

    /// The smallest stretch that covers both spans (in the file of `self`).
    #[verifier::when_used_as_spec(spec_sup)]
    pub fn sup(&self, other: &Span) -> (res: Span)
        ensures
            res == self.spec_sup(other),
    {
        Span {
            file: self.file.clone(),
            start_byte: if self.start_byte <= other.start_byte {
                self.start_byte
            } else {
                other.start_byte
            },
            end_byte: if self.end_byte >= other.end_byte {
                self.end_byte
            } else {
                other.end_byte
            },
            start: if location_le(self.start, other.start) {
                self.start
            } else {
                other.start
            },
            end: if location_le(self.end, other.end) {
                other.end
            } else {
                self.end
            },
        }
    }

    #[verifier::allow_in_spec]
    pub fn start(&self) -> Location
        returns
            self.start,
    {
        self.start
    }

    #[verifier::allow_in_spec]
    pub fn end(&self) -> Location
        returns
            self.end,
    {
        self.end
    }

    #[verifier::allow_in_spec]
    pub fn start_byte(&self) -> usize
        returns
            self.start_byte,
    {
        self.start_byte
    }

    #[verifier::allow_in_spec]
    pub fn end_byte(&self) -> usize
        returns
            self.end_byte,
    {
        self.end_byte
    }
}

/// The union of two spans covers both: it begins no later and ends no earlier
/// than either, in lines and columns as in offsets; and it does not depend on
/// which of the two comes first, but for its file, taken from the first.
pub proof fn lemma_sup_covers(a: Span, b: Span)
    ensures
        loc_le(a.spec_sup(&b).start, a.start),
        loc_le(a.spec_sup(&b).start, b.start),
        loc_le(a.end, a.spec_sup(&b).end),
        loc_le(b.end, a.spec_sup(&b).end),
        a.spec_sup(&b).start_byte <= a.start_byte,
        a.spec_sup(&b).start_byte <= b.start_byte,
        a.spec_sup(&b).end_byte >= a.end_byte,
        a.spec_sup(&b).end_byte >= b.end_byte,
        a.spec_sup(&b).file == a.file,
        a.spec_sup(&b).start == b.spec_sup(&a).start,
        a.spec_sup(&b).end == b.spec_sup(&a).end,
        a.spec_sup(&b).start_byte == b.spec_sup(&a).start_byte,
        a.spec_sup(&b).end_byte == b.spec_sup(&a).end_byte,
{
}

/// The text of a source file, with the offset at which each line begins.
/// These offsets are counted in characters; the byte at which a line begins is
/// [`Source::line_byte`].
pub struct Source {
    /// The name of the file, as spans name it.
    pub file: String,
    pub text: Vec<char>,
    pub lines: Vec<usize>,
}

/// How many bytes the UTF-8 encoding of `c` takes.
pub open spec fn char_width(c: char) -> nat {
    if (c as int) < 0x80 {
        1
    } else if (c as int) < 0x800 {
        2
    } else if (c as int) < 0x10000 {
        3
    } else {
        4
    }
}

/// How many bytes the UTF-8 encoding of `s` takes.
pub open spec fn utf8_len(s: Seq<char>) -> nat
    decreases s.len(),
{
    if s.len() == 0 {
        0
    } else {
        utf8_len(s.drop_last()) + char_width(s.last())
    }
}

/// A prefix of a text takes no more bytes than a longer one.
pub proof fn lemma_utf8_len_prefix(s: Seq<char>, j: int, k: int)
    requires
        0 <= j <= k <= s.len(),
    ensures
        utf8_len(s.subrange(0, j)) <= utf8_len(s.subrange(0, k)),
    decreases k - j,
{
    if j < k {
        assert(s.subrange(0, k).drop_last() =~= s.subrange(0, k - 1));
        lemma_utf8_len_prefix(s, j, k - 1);
    }
}

/// How many bytes the UTF-8 encoding of `c` takes.
fn char_width_of(c: char) -> (w: usize)
    ensures
        w == char_width(c),
{
    let n = c as u32;
    if n < 0x80 {
        1
    } else if n < 0x800 {
        2
    } else if n < 0x10000 {
        3
    } else {
        4
    }
}

/// Where the lines of `t` begin: at 0, and just after each newline.
pub open spec fn line_starts(t: Seq<char>) -> Seq<int>
    decreases t.len(),
{
    if t.len() == 0 {
        seq![0]
    } else if t.last() == '\n' {
        line_starts(t.drop_last()).push(t.len() as int)
    } else {
        line_starts(t.drop_last())
    }
}

impl Source {
    /// The line table is not empty, never goes back and stays within the text.
    pub open spec fn wf(&self) -> bool {
        &&& self.lines@.len() > 0
        &&& forall|i: int, j: int|
            0 <= i <= j < self.lines@.len() ==> self.lines@[i] <= self.lines@[j]
        &&& forall|i: int| 0 <= i < self.lines@.len() ==> self.lines@[i] <= self.text@.len()
    }

    /// Where line `n` ends: where the next one begins, or at the end of the text.
    pub open spec fn line_end(&self, n: int) -> int {
        if n + 1 == self.lines@.len() {
            self.text@.len() as int
        } else {
            self.lines@[n + 1] as int
        }
    }

    /// The text of line `n`, without the white space at its end.
    pub open spec fn line_text(&self, n: int) -> Seq<char> {
        trim_end(self.text@.subrange(self.lines@[n] as int, self.line_end(n)))
    }

    /// Whether `span` designates a stretch of this text that can be shown: it
    /// does not end before it begins, its lines exist, its offsets are not before
    /// the beginning of their lines, and its last column can be counted past.
    pub open spec fn fits(&self, span: Span) -> bool {
        &&& loc_le(span.start, span.end)
        &&& span.end.0 < self.lines@.len()
        &&& span.end.1 < usize::MAX
        &&& self.line_byte(span.start.0 as int) <= span.start_byte
        &&& self.line_byte(span.end.0 as int) <= span.end_byte
    }

    /// Where line `n` begins, in bytes of the UTF-8 encoding of the text.
    pub open spec fn line_byte(&self, n: int) -> nat {
        utf8_len(self.text@.subrange(0, self.lines@[n] as int))
    }

    /// Where line `n` begins, in bytes (see [`Source::line_byte`]), if that is
    /// no more than `bound`.
    pub fn line_byte_within(&self, n: usize, bound: usize) -> (r: Option<usize>)
        requires
            self.wf(),
            n < self.lines@.len(),
        ensures
            match r {
                Some(b) => b == self.line_byte(n as int) && b <= bound,
                None => self.line_byte(n as int) > bound,
            },
    {
        let end = self.lines[n];
        let mut acc: usize = 0;
        let mut i: usize = 0;
        while i < end
            invariant
                end == self.lines@[n as int],
                end <= self.text@.len(),
                i <= end,
                acc == utf8_len(self.text@.subrange(0, i as int)),
                acc <= bound,
            decreases end - i,
        {
            let w = char_width_of(self.text[i]);
            assert(self.text@.subrange(0, i + 1).drop_last() =~= self.text@.subrange(0, i as int));
            if w > bound - acc {
                proof {
                    lemma_utf8_len_prefix(self.text@, i + 1, end as int);
                }
                return None;
            }
            acc = acc + w;
            i = i + 1;
        }
        Some(acc)
    }

    /// The source of the text `text`, with the beginning of each of its lines.
    pub fn new(file: String, text: Vec<char>) -> (r: Source)
        ensures
            r.file == file,
            r.wf(),
            r.text@ == text@,
            r.lines@.len() == line_starts(text@).len(),
            forall|i: int|
                0 <= i < r.lines@.len() ==> r.lines@[i] as int == line_starts(text@)[i],
    {
        let mut lines: Vec<usize> = Vec::new();
        lines.push(0);
        let mut i: usize = 0;
        while i < text.len()
            invariant
                i <= text.len(),
                lines@.len() == line_starts(text@.subrange(0, i as int)).len(),
                forall|k: int|
                    0 <= k < lines@.len() ==> lines@[k] as int == line_starts(
                        text@.subrange(0, i as int),
                    )[k],
                lines@.len() > 0,
                forall|a: int, b: int| 0 <= a <= b < lines@.len() ==> lines@[a] <= lines@[b],
                forall|a: int| 0 <= a < lines@.len() ==> lines@[a] <= i,
            decreases text.len() - i,
        {
            assert(text@.subrange(0, i + 1).drop_last() =~= text@.subrange(0, i as int));
            if text[i] == '\n' {
                lines.push(i + 1);
            }
            i = i + 1;
        }
        assert(text@.subrange(0, text@.len() as int) =~= text@);
        Source { file, text, lines }
    }

    /// Whether the line table is well formed (see [`Source::wf`]).
    pub fn is_wf(&self) -> (b: bool)
        ensures
            b == self.wf(),
    {
        let n = self.lines.len();
        if n == 0 {
            return false;
        }
        let mut i: usize = 0;
        while i < n
            invariant
                i <= n,
                n == self.lines@.len(),
                forall|a: int, b: int| 0 <= a <= b < i ==> self.lines@[a] <= self.lines@[b],
                forall|a: int| 0 <= a < i ==> self.lines@[a] <= self.text@.len(),
            decreases n - i,
        {
            if self.lines[i] > self.text.len() {
                assert(!(self.lines@[i as int] <= self.text@.len()));
                return false;
            }
            if i > 0 && self.lines[i - 1] > self.lines[i] {
                assert(!(self.lines@[i - 1] <= self.lines@[i as int]));
                return false;
            }
            i = i + 1;
        }
        true
    }

    /// Whether `span` designates a stretch of this text that can be shown.
    pub fn span_fits(&self, span: &Span) -> (b: bool)
        requires
            self.wf(),
        ensures
            b == self.fits(*span),
    {
        location_le(span.start, span.end) && span.end.0 < self.lines.len() && span.end.1
            < usize::MAX && self.line_byte_within(span.start.0, span.start_byte).is_some()
            && self.line_byte_within(span.end.0, span.end_byte).is_some()
    }
}

/// A value together with the stretch of source it comes from.
#[derive(Debug)]
pub struct WithSpan<T> {
    pub inner: T,
    pub span: Span,
}

impl<T> WithSpan<T> {
    pub fn new(inner: T, span: Span) -> (r: Self)
        ensures
            r.inner == inner,
            r.span == span,
    {
        WithSpan { inner, span }
    }
}

impl<T: Copy> WithSpan<T> {
    /// The same value, attached to another span.
    pub fn with_span(&self, span: Span) -> (r: Self)
        ensures
            r.inner == self.inner,
            r.span == span,
    {
        WithSpan { inner: self.inner, span }
    }

    pub fn copied(&self) -> (r: Self)
        ensures
            r == *self,
    {
        WithSpan { inner: self.inner, span: self.span.clone() }
    }
}

/// The source of the file `file` among `srcs`: the last one of that name.
pub open spec fn source_for(srcs: Seq<Source>, file: Seq<char>) -> Option<Source>
    decreases srcs.len(),
{
    if srcs.len() == 0 {
        None
    } else if srcs.last().file@ == file {
        Some(srcs.last())
    } else {
        source_for(srcs.drop_last(), file)
    }
}

/// Whether `span` can be shown from the source of its file among `srcs`: there
/// is one, it is well formed and the span fits it.
pub open spec fn shown_from(srcs: Seq<Source>, span: Span) -> bool {
    match source_for(srcs, span.file@) {
        Some(src) => src.wf() && src.fits(span),
        None => false,
    }
}

/// A span that can be shown lies on lines that a machine index can count past.
pub broadcast proof fn lemma_shown_rows(srcs: Seq<Source>, span: Span)
    requires
        #[trigger] shown_from(srcs, span),
    ensures
        span.start.0 < usize::MAX,
        span.end.0 < usize::MAX,
{
    let src = source_for(srcs, span.file@)->0;
    assert(src.lines.len() == src.lines@.len());
}

/// The source of the file of `span` among `srcs`.
pub fn find_source<'a>(srcs: &'a Vec<Source>, span: &Span) -> (r: Option<&'a Source>)
    ensures
        match r {
            Some(src) => source_for(srcs@, span.file@) == Some(*src),
            None => source_for(srcs@, span.file@) is None,
        },
{
    let mut i = srcs.len();
    assert(srcs@.subrange(0, i as int) =~= srcs@);
    while i > 0
        invariant
            i <= srcs@.len(),
            source_for(srcs@, span.file@) == source_for(srcs@.subrange(0, i as int), span.file@),
        decreases i,
    {
        assert(srcs@.subrange(0, i as int).drop_last() =~= srcs@.subrange(0, i - 1));
        if srcs[i - 1].file == span.file {
            return Some(&srcs[i - 1]);
        }
        i = i - 1;
    }
    None
}

/// Whether `span` can be shown from the source of its file among `srcs`.
pub fn span_shown(srcs: &Vec<Source>, span: &Span) -> (b: bool)
    ensures
        b == shown_from(srcs@, *span),
{
    match find_source(srcs, span) {
        Some(src) => src.is_wf() && src.span_fits(span),
        None => false,
    }
}

} // verus!
