//! Ranges in a source that is made of snippets, and the source itself.

use vstd::prelude::*;
use vstd::string::*;
use vstd::utf8::*;

verus! {

/// A range of bytes, without its end.
#[derive(Debug, Clone, Copy, PartialEq, Eq, Hash)]
pub struct TextRange {
    pub start: usize,
    pub end: usize,
}

impl TextRange {
    pub fn new(start: usize, end: usize) -> (r: Self)
        ensures
            r.start == start,
            r.end == end,
    {
        TextRange { start, end }
    }

    /// Whether a byte lies in the range.
    pub fn contains(self, byte: usize) -> (r: bool)
        ensures
            r == (self.start <= byte < self.end),
    {
        byte >= self.start && byte < self.end
    }

    /// The range, counted from the start of a window that holds it; `None` if the window
    /// does not hold it. A range that the window holds does not end before the window.
    pub fn remap_from_window(self, start: usize, end: usize) -> (r: Option<Self>)
        requires
            start <= self.start && self.end <= end ==> start <= self.end,
        ensures
            r is Some <==> start <= self.start && self.end <= end,
            r matches Some(inner) ==> inner.start + start == self.start && inner.end + start
                == self.end,
    {
        if self.start < start || self.end > end {
            return None;
        }
        Some(TextRange { start: self.start - start, end: self.end - start })
    }
}

/// Moved into a window and out of it again, a range is what it was.
pub proof fn law_remap_keeps_length(whole: TextRange, inner: TextRange, start: usize)
    requires
        inner.start + start == whole.start,
        inner.end + start == whole.end,
    ensures
        inner.end - inner.start == whole.end - whole.start,
        forall|byte: int| #![trigger byte + start]
            inner.start <= byte < inner.end <==> whole.start <= byte + start < whole.end,
{
}

/// All snippets so far, one below the other.
pub struct SnippetSource {
    pub source: String,
}

/// A text that ends in a new line, unless it is empty.
pub open spec fn line_ended(text: Seq<char>) -> Seq<char> {
    if text.len() > 0 && text.last() != '\n' {
        text.push('\n')
    } else {
        text
    }
}

/// A text with a snippet below it. The snippet ends in a new line.
pub open spec fn with_snippet(text: Seq<char>, snippet: Seq<char>) -> Seq<char> {
    let all = line_ended(text) + snippet;
    if all.len() == 0 {
        seq!['\n']
    } else {
        line_ended(all)
    }
}

/// Whether a text ends in a new line.
fn ends_line(text: &str) -> (r: bool)
    ensures
        r == (text@.len() > 0 && text@.last() == '\n'),
{
    let n: usize = text.unicode_len();
    n > 0 && text.get_char(n - 1) == '\n'
}

impl SnippetSource {
    pub fn new() -> (r: Self)
        ensures
            r.source@ == Seq::<char>::empty(),
    {
        SnippetSource { source: String::new() }
    }

    /// Puts a snippet below what is there. Gives the byte at which it starts.
    pub fn append_snippet(&mut self, snippet: &str) -> (r: usize)
        ensures
            final(self).source@ == with_snippet(old(self).source@, snippet@),
            r == encode_utf8(line_ended(old(self).source@)).len() as usize,
    {
        if !self.source.as_str().is_empty() && !ends_line(self.source.as_str()) {
            self.source.push('\n');
        }
        let start: usize = self.source.as_str().len();
        self.source.append(snippet);
        if !ends_line(self.source.as_str()) {
            self.source.push('\n');
        }
        assert(seq!['\n'] =~= Seq::<char>::empty().push('\n'));
        start
    }

    /// The source of all snippets.
    pub fn accumulated_source(&self) -> (r: &str)
        ensures
            r@ == self.source@,
    {
        self.source.as_str()
    }
}

/// After any snippet the source ends in a new line, and what was there is still where it was.
pub proof fn law_snippets_end_in_lines(text: Seq<char>, snippet: Seq<char>)
    ensures
        with_snippet(text, snippet).last() == '\n',
        text.is_prefix_of(with_snippet(text, snippet)),
{
    let after = with_snippet(text, snippet);
    let all = line_ended(text) + snippet;
    assert(all.subrange(0, text.len() as int) =~= text);
    assert(after.subrange(0, text.len() as int) =~= text);
}

} // verus!
