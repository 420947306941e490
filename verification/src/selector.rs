//! The closed family of selectors that the extraction logic evaluates.

use vstd::prelude::*;
use vstd::string::StringExecFns;

verus! {

/// A selector over the document tree.
///
/// - `Tag(t)`: any descendant element with tag `t` (CSS `t`).
/// - `Class(c)`: any descendant element whose class list contains `c`
///   (CSS `.c`).
/// - `ChildTag(t)`: a direct child element with tag `t` (CSS `:scope > t`).
/// - `ChildChain(p, c)`: a direct child element `p` holding a direct child
///   element `c` (CSS `:scope > p > c`); the match is the inner `c` element.
/// - `DescChain(p, c)`: any descendant element `c` whose parent element has
///   tag `p` (CSS `p > c`); the match is the `c` element.
#[derive(Debug, PartialEq, Eq)]
pub enum Selector {
    Tag(String),
    Class(String),
    ChildTag(String),
    ChildChain(String, String),
    DescChain(String, String),
}

/// The mathematical shape of a [`Selector`]: the same alternatives over
/// character sequences.
pub enum SelectorV {
    Tag(Seq<char>),
    Class(Seq<char>),
    ChildTag(Seq<char>),
    ChildChain(Seq<char>, Seq<char>),
    DescChain(Seq<char>, Seq<char>),
}

impl View for Selector {
    type V = SelectorV;

    open spec fn view(&self) -> SelectorV {
        match self {
            Selector::Tag(t) => SelectorV::Tag(t@),
            Selector::Class(c) => SelectorV::Class(c@),
            Selector::ChildTag(t) => SelectorV::ChildTag(t@),
            Selector::ChildChain(p, c) => SelectorV::ChildChain(p@, c@),
            Selector::DescChain(p, c) => SelectorV::DescChain(p@, c@),
        }
    }
}

impl Selector {
    /// Builds a descendant-tag selector from a tag name.
    pub fn tag(t: &str) -> (r: Selector)
        ensures
            r@ == SelectorV::Tag(t@),
    {
        Selector::Tag(String::from_str(t))
    }

    /// Builds a descendant-class selector from a class name.
    pub fn class(c: &str) -> (r: Selector)
        ensures
            r@ == SelectorV::Class(c@),
    {
        Selector::Class(String::from_str(c))
    }

    /// Builds a direct-child-tag selector from a tag name.
    pub fn child_tag(t: &str) -> (r: Selector)
        ensures
            r@ == SelectorV::ChildTag(t@),
    {
        Selector::ChildTag(String::from_str(t))
    }

    /// Builds a direct-child chain selector from the outer and inner tags.
    pub fn child_chain(p: &str, c: &str) -> (r: Selector)
        ensures
            r@ == SelectorV::ChildChain(p@, c@),
    {
        Selector::ChildChain(String::from_str(p), String::from_str(c))
    }

    /// Builds a descendant chain selector from the parent and child tags.
    pub fn desc_chain(p: &str, c: &str) -> (r: Selector)
        ensures
            r@ == SelectorV::DescChain(p@, c@),
    {
        Selector::DescChain(String::from_str(p), String::from_str(c))
    }
}

} // verus!
