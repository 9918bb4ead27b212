//! The output of rendering: an ordered, append-only list of text units, each tagged with
//! what produced it, so that any range of the final text can be traced to its unit.

use crate::ids::ModuleIdx;
use crate::text::{concat, lemma_concat_step};
use vstd::prelude::*;
use vstd::string::*;
use vstd::utf8::encode_utf8;

verus! {

/// What produced a unit of a chunk's text.
#[derive(Clone, Copy, Debug, PartialEq, Eq, Structural)]
pub enum SourceOrigin {
    Banner,
    Intro,
    /// The import block of the chunk.
    Imports,
    /// A pre-rendered fragment of the given module.
    Module(ModuleIdx),
    /// The call of the entry module's initializer.
    Wrapper,
    /// The export block of the chunk.
    Exports,
    Outro,
    Footer,
}

/// One unit of text and its origin.
#[derive(Debug, PartialEq, Eq)]
pub struct RawSource {
    pub origin: SourceOrigin,
    pub text: String,
}

/// Model of a [`RawSource`].
pub struct SourceView {
    pub origin: SourceOrigin,
    pub text: Seq<char>,
}

impl View for RawSource {
    type V = SourceView;

    open spec fn view(&self) -> SourceView {
        SourceView { origin: self.origin, text: self.text@ }
    }
}

impl RawSource {
    pub fn new(origin: SourceOrigin, text: String) -> (source: Self)
        ensures
            source@ == (SourceView { origin, text: text@ }),
    {
        RawSource { origin, text }
    }
}

/// The texts of a list of units.
pub open spec fn unit_texts(units: Seq<SourceView>) -> Seq<Seq<char>> {
    Seq::new(units.len(), |i: int| units[i].text)
}

/// The text that a list of units stands for: the texts of the units, one after the other.
pub open spec fn content_text(units: Seq<SourceView>) -> Seq<char> {
    concat(unit_texts(units))
}

/// Where unit `i` starts in the text, in bytes of its UTF-8 form.
pub open spec fn unit_offset(units: Seq<SourceView>, i: int) -> nat {
    encode_utf8(content_text(units.take(i))).len()
}

/// The UTF-8 form of two texts in a row is the UTF-8 forms of the two in a row.
pub proof fn lemma_encode_concat(a: Seq<char>, b: Seq<char>)
    ensures
        encode_utf8(a + b) == encode_utf8(a) + encode_utf8(b),
    decreases a.len(),
{
    if a.len() == 0 {
        assert(a + b =~= b);
        assert(encode_utf8(a) + encode_utf8(b) =~= encode_utf8(b));
    } else {
        lemma_encode_concat(a.drop_first(), b);
        assert((a + b).drop_first() =~= a.drop_first() + b);
        assert((a + b)[0] == a[0]);
        assert(encode_utf8(a + b) =~= encode_utf8(a) + encode_utf8(b));
    }
}

/// Every character takes at least one byte.
pub proof fn lemma_encode_len(a: Seq<char>)
    ensures
        encode_utf8(a).len() >= a.len(),
    decreases a.len(),
{
    if a.len() > 0 {
        lemma_encode_len(a.drop_first());
    }
}

/// A later unit never starts before an earlier one ends; so it starts strictly after the
/// start of every earlier unit that is not empty.
pub proof fn lemma_offsets_ordered(units: Seq<SourceView>, i: int, j: int)
    requires
        0 <= i <= j <= units.len(),
    ensures
        unit_offset(units, i) <= unit_offset(units, j),
        i < j ==> unit_offset(units, i) + encode_utf8(units[i].text).len() <= unit_offset(units, j),
        i < j && units[i].text.len() > 0 ==> unit_offset(units, i) < unit_offset(units, j),
    decreases j - i,
{
    if i < j {
        lemma_offsets_ordered(units, i, j - 1);
        let texts = unit_texts(units.take(j));
        assert(texts.drop_last() =~= unit_texts(units.take(j - 1)));
        assert(texts.last() == units[j - 1].text);
        lemma_encode_concat(content_text(units.take(j - 1)), units[j - 1].text);
        lemma_encode_len(units[i].text);
    }
}

/// The ordered list of units that make up the text of one chunk.
pub struct ConcatSource {
    inner: Vec<RawSource>,
}

impl View for ConcatSource {
    type V = Seq<SourceView>;

    closed spec fn view(&self) -> Seq<SourceView> {
        Seq::new(self.inner@.len(), |i: int| self.inner@[i]@)
    }
}

impl ConcatSource {
    /// A list without units.
    pub fn new() -> (source: Self)
        ensures
            source@ == Seq::<SourceView>::empty(),
    {
        let source = ConcatSource { inner: Vec::new() };
        assert(source@ =~= Seq::<SourceView>::empty());
        source
    }

    /// Appends one unit.
    pub fn add_source(&mut self, source: RawSource)
        ensures
            final(self)@ == old(self)@.push(source@),
    {
        self.inner.push(source);
        assert(final(self)@ =~= old(self)@.push(source@));
    }

    /// The number of units.
    pub fn len(&self) -> (n: usize)
        ensures
            n == self@.len(),
    {
        self.inner.len()
    }

    /// The unit at position `i`, if there is one.
    pub fn get(&self, i: usize) -> (source: Option<&RawSource>)
        ensures
            match source {
                Some(unit) => i < self@.len() && unit@ == self@[i as int],
                None => i >= self@.len(),
            },
    {
        if i < self.inner.len() {
            Some(&self.inner[i])
        } else {
            None
        }
    }

    /// The whole text: the units one after the other, with nothing between them.
    pub fn content(&self) -> (text: String)
        ensures
            text@ == content_text(self@),
    {
        let ghost texts = unit_texts(self@);
        let mut text = String::new();
        let mut i: usize = 0;
        assert(texts.take(0) =~= Seq::<Seq<char>>::empty());
        while i < self.inner.len()
            invariant
                i <= self.inner.len(),
                texts == unit_texts(self@),
                texts.len() == self.inner.len(),
                text@ == concat(texts.take(i as int)),
            decreases self.inner.len() - i,
        {
            text.append(self.inner[i].text.as_str());
            proof {
                lemma_concat_step(texts, i as int);
            }
            i += 1;
        }
        assert(texts.take(i as int) =~= texts);
        text
    }
}

} // verus!
