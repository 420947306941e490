//! The document tree: nodes, text content, and selector evaluation.

use vstd::prelude::*;
use vstd::string::StringExecFns;
use crate::error::Error;
use crate::error::ErrorV;
use crate::selector::Selector;
use crate::selector::SelectorV;

verus! {

/// An element of the document tree: a tag name, the tokens of its `class`
/// attribute, its attributes as name/value pairs, and its child nodes in
/// document order.
pub struct Elem {
    pub tag: String,
    pub classes: Vec<String>,
    pub attrs: Vec<(String, String)>,
    pub children: Vec<Node>,
}

/// A node of the document tree: either a text node or an element.
pub enum Node {
    Text(String),
    Element(Elem),
}

/// The text content of a node: the concatenation of all descendant text
/// nodes in document order, with whitespace preserved verbatim.
pub open spec fn text_of(n: Node) -> Seq<char>
    decreases n, 0int,
{
    match n {
        Node::Text(s) => s@,
        Node::Element(e) => texts_from(e.children@, 0),
    }
}

/// The concatenated text content of the nodes `ns[i..]`.
pub open spec fn texts_from(ns: Seq<Node>, i: int) -> Seq<char>
    decreases ns, ns.len() - i,
{
    if i < 0 || i >= ns.len() {
        Seq::<char>::empty()
    } else {
        text_of(ns[i]) + texts_from(ns, i + 1)
    }
}

/// Appends the text content of `n` to `out`.
pub fn collect_text(n: &Node, out: &mut String)
    ensures
        final(out)@ == old(out)@ + text_of(*n),
    decreases *n, 0int,
{
    match n {
        Node::Text(s) => {
            out.append(s.as_str());
        }
        Node::Element(e) => {
            collect_forest(&e.children, 0, out);
        }
    }
}

/// Whether `n` is an element node.
pub open spec fn node_is_elem(n: Node) -> bool {
    match n {
        Node::Element(_) => true,
        Node::Text(_) => false,
    }
}

/// The tag of `n` if it is an element, the empty sequence otherwise.
pub open spec fn node_tag(n: Node) -> Seq<char> {
    match n {
        Node::Element(e) => e.tag@,
        Node::Text(_) => Seq::<char>::empty(),
    }
}

/// The children of `n` if it is an element, none otherwise.
pub open spec fn node_children(n: Node) -> Seq<Node> {
    match n {
        Node::Element(e) => e.children@,
        Node::Text(_) => Seq::<Node>::empty(),
    }
}

/// Whether one of the class tokens `cs[i..]` equals `c`.
pub open spec fn class_in(cs: Seq<String>, c: Seq<char>, i: int) -> bool
    decreases cs.len() - i,
{
    if i < 0 || i >= cs.len() {
        false
    } else {
        cs[i]@ == c || class_in(cs, c, i + 1)
    }
}

/// Whether `n` is an element whose class list contains `c`.
pub open spec fn has_class_spec(n: Node, c: Seq<char>) -> bool {
    match n {
        Node::Element(e) => class_in(e.classes@, c, 0),
        Node::Text(_) => false,
    }
}

/// Whether `n`, seen below a parent element with tag `pt`, matches the
/// descendant-style selector `s`. Child-anchored selectors never match
/// here; they are evaluated structurally at the scope.
pub open spec fn node_matches(n: Node, pt: Seq<char>, s: SelectorV) -> bool {
    match s {
        SelectorV::Tag(t) => node_is_elem(n) && node_tag(n) == t,
        SelectorV::Class(c) => has_class_spec(n, c),
        SelectorV::DescChain(p, c) => node_is_elem(n) && node_tag(n) == c && pt == p,
        SelectorV::ChildTag(_) => false,
        SelectorV::ChildChain(_, _) => false,
    }
}

/// All matches of `s` in the subtree rooted at `n` (including `n` itself),
/// in document order, where `pt` is the tag of the parent element of `n`.
pub open spec fn desc_matches(n: Node, pt: Seq<char>, s: SelectorV) -> Seq<Node>
    decreases n, 0int,
{
    let self_part = if node_matches(n, pt, s) {
        seq![n]
    } else {
        Seq::<Node>::empty()
    };
    match n {
        Node::Text(_) => self_part,
        Node::Element(e) => self_part + forest_matches(e.children@, e.tag@, s, 0),
    }
}

/// All matches of `s` in the subtrees of `ns[i..]`, in document order,
/// where `pt` is the tag of the common parent element.
pub open spec fn forest_matches(ns: Seq<Node>, pt: Seq<char>, s: SelectorV, i: int) -> Seq<Node>
    decreases ns, ns.len() - i,
{
    if i < 0 || i >= ns.len() {
        Seq::<Node>::empty()
    } else {
        desc_matches(ns[i], pt, s) + forest_matches(ns, pt, s, i + 1)
    }
}

/// Those of the nodes `ns[i..]` that are elements with tag `t`, in order.
pub open spec fn children_with_tag(ns: Seq<Node>, t: Seq<char>, i: int) -> Seq<Node>
    decreases ns.len() - i,
{
    if i < 0 || i >= ns.len() {
        Seq::<Node>::empty()
    } else if node_is_elem(ns[i]) && node_tag(ns[i]) == t {
        seq![ns[i]] + children_with_tag(ns, t, i + 1)
    } else {
        children_with_tag(ns, t, i + 1)
    }
}

/// For each of the nodes `ns[i..]` that is an element with tag `p`, its
/// direct child elements with tag `c`, concatenated in document order.
pub open spec fn chain_matches(ns: Seq<Node>, p: Seq<char>, c: Seq<char>, i: int) -> Seq<Node>
    decreases ns.len() - i,
{
    if i < 0 || i >= ns.len() {
        Seq::<Node>::empty()
    } else {
        let head = if node_is_elem(ns[i]) && node_tag(ns[i]) == p {
            children_with_tag(node_children(ns[i]), c, 0)
        } else {
            Seq::<Node>::empty()
        };
        head + chain_matches(ns, p, c, i + 1)
    }
}

/// All matches of `s` among the strict descendants of `scope`, in document
/// order. The scope itself is never a match.
pub open spec fn select_all_spec(scope: Node, s: SelectorV) -> Seq<Node> {
    match s {
        SelectorV::Tag(_) => forest_matches(node_children(scope), node_tag(scope), s, 0),
        SelectorV::Class(_) => forest_matches(node_children(scope), node_tag(scope), s, 0),
        SelectorV::DescChain(_, _) => forest_matches(node_children(scope), node_tag(scope), s, 0),
        SelectorV::ChildTag(t) => children_with_tag(node_children(scope), t, 0),
        SelectorV::ChildChain(p, c) => chain_matches(node_children(scope), p, c, 0),
    }
}

/// The nodes a sequence of references points at, in the same order.
pub open spec fn refs_view(s: Seq<&Node>) -> Seq<Node> {
    s.map_values(|n: &Node| *n)
}

/// The first attribute named `name` among `attrs[i..]`, if any.
pub open spec fn attr_from(attrs: Seq<(String, String)>, name: Seq<char>, i: int) -> Option<
    Seq<char>,
>
    decreases attrs.len() - i,
{
    if i < 0 || i >= attrs.len() {
        None
    } else if attrs[i].0@ == name {
        Some(attrs[i].1@)
    } else {
        attr_from(attrs, name, i + 1)
    }
}

/// The value of the attribute named `name` on element `n`, if present.
pub open spec fn attr_of(n: Node, name: Seq<char>) -> Option<Seq<char>> {
    match n {
        Node::Element(e) => attr_from(e.attrs@, name, 0),
        Node::Text(_) => None,
    }
}

/// Whether `n` matches the descendant-style selector `s` under a parent
/// element with tag `pt`.
fn node_matches_exec(n: &Node, pt: &String, s: &Selector) -> (r: bool)
    ensures
        r == node_matches(*n, pt@, s@),
{
    match s {
        Selector::Tag(t) => match n {
            Node::Element(e) => e.tag == *t,
            Node::Text(_) => false,
        },
        Selector::Class(c) => has_class_exec(n, c),
        Selector::DescChain(p, c) => match n {
            Node::Element(e) => e.tag == *c && *pt == *p,
            Node::Text(_) => false,
        },
        Selector::ChildTag(_) => false,
        Selector::ChildChain(_, _) => false,
    }
}

/// Whether `n` is an element whose class list contains `c`.
fn has_class_exec(n: &Node, c: &String) -> (r: bool)
    ensures
        r == has_class_spec(*n, c@),
{
    match n {
        Node::Text(_) => false,
        Node::Element(e) => {
            let mut j: usize = 0;
            while j < e.classes.len()
                invariant
                    j <= e.classes@.len(),
                    has_class_spec(*n, c@) == class_in(e.classes@, c@, j as int),
                decreases e.classes@.len() - j,
            {
                if e.classes[j] == *c {
                    return true;
                }
                j += 1;
            }
            false
        }
    }
}

/// All matches of `s` in the subtree rooted at `n`, in document order.
fn desc_select<'a>(n: &'a Node, pt: &String, s: &Selector) -> (r: Vec<&'a Node>)
    ensures
        refs_view(r@) == desc_matches(*n, pt@, s@),
    decreases *n, 0int,
{
    let mut out: Vec<&'a Node> = Vec::new();
    if node_matches_exec(n, pt, s) {
        out.push(n);
    }
    match n {
        Node::Text(_) => {
            assert(refs_view(out@) =~= desc_matches(*n, pt@, s@));
        }
        Node::Element(e) => {
            let mut rest = forest_select(&e.children, &e.tag, s, 0);
            out.append(&mut rest);
            assert(refs_view(out@) =~= desc_matches(*n, pt@, s@));
        }
    }
    out
}

/// All matches of `s` in the subtrees of `ns[i..]`, in document order.
fn forest_select<'a>(ns: &'a Vec<Node>, pt: &String, s: &Selector, i: usize) -> (r: Vec<&'a Node>)
    requires
        i <= ns@.len(),
    ensures
        refs_view(r@) == forest_matches(ns@, pt@, s@, i as int),
    decreases ns@, ns@.len() - i,
{
    if i == ns.len() {
        let r: Vec<&'a Node> = Vec::new();
        assert(refs_view(r@) =~= forest_matches(ns@, pt@, s@, i as int));
        r
    } else {
        let mut out = desc_select(&ns[i], pt, s);
        let mut rest = forest_select(ns, pt, s, i + 1);
        out.append(&mut rest);
        assert(refs_view(out@) =~= forest_matches(ns@, pt@, s@, i as int));
        out
    }
}

/// Those of the nodes `ns[i..]` that are elements with tag `t`, in order.
fn child_tag_select<'a>(ns: &'a Vec<Node>, t: &String, i: usize) -> (r: Vec<&'a Node>)
    requires
        i <= ns@.len(),
    ensures
        refs_view(r@) == children_with_tag(ns@, t@, i as int),
    decreases ns@.len() - i,
{
    if i == ns.len() {
        let r: Vec<&'a Node> = Vec::new();
        assert(refs_view(r@) =~= children_with_tag(ns@, t@, i as int));
        r
    } else {
        let matched = match &ns[i] {
            Node::Element(e) => e.tag == *t,
            Node::Text(_) => false,
        };
        let mut rest = child_tag_select(ns, t, i + 1);
        if matched {
            let mut out: Vec<&'a Node> = Vec::new();
            out.push(&ns[i]);
            out.append(&mut rest);
            assert(refs_view(out@) =~= children_with_tag(ns@, t@, i as int));
            out
        } else {
            assert(refs_view(rest@) =~= children_with_tag(ns@, t@, i as int));
            rest
        }
    }
}

/// For each element of `ns[i..]` with tag `p`, its direct child elements
/// with tag `c`, concatenated in document order.
fn chain_select<'a>(ns: &'a Vec<Node>, p: &String, c: &String, i: usize) -> (r: Vec<&'a Node>)
    requires
        i <= ns@.len(),
    ensures
        refs_view(r@) == chain_matches(ns@, p@, c@, i as int),
    decreases ns@.len() - i,
{
    if i == ns.len() {
        let r: Vec<&'a Node> = Vec::new();
        assert(refs_view(r@) =~= chain_matches(ns@, p@, c@, i as int));
        r
    } else {
        let mut out: Vec<&'a Node> = match &ns[i] {
            Node::Element(e) => {
                if e.tag == *p {
                    child_tag_select(&e.children, c, 0)
                } else {
                    Vec::new()
                }
            }
            Node::Text(_) => Vec::new(),
        };
        let mut rest = chain_select(ns, p, c, i + 1);
        out.append(&mut rest);
        assert(refs_view(out@) =~= chain_matches(ns@, p@, c@, i as int));
        out
    }
}

/// All matches of `selector` among the strict descendants of `element`, in
/// document order.
pub fn select_elements<'a>(element: &'a Node, selector: &Selector) -> (r: Vec<&'a Node>)
    ensures
        refs_view(r@) == select_all_spec(*element, selector@),
{
    match element {
        Node::Text(_) => {
            let r: Vec<&'a Node> = Vec::new();
            assert(refs_view(r@) =~= select_all_spec(*element, selector@));
            r
        }
        Node::Element(e) => match selector {
            Selector::Tag(_) => forest_select(&e.children, &e.tag, selector, 0),
            Selector::Class(_) => forest_select(&e.children, &e.tag, selector, 0),
            Selector::DescChain(_, _) => forest_select(&e.children, &e.tag, selector, 0),
            Selector::ChildTag(t) => child_tag_select(&e.children, t, 0),
            Selector::ChildChain(p, c) => chain_select(&e.children, p, c, 0),
        },
    }
}

/// The first match of `selector` among the strict descendants of `element`
/// in document order, or `ElementNotFound` when there is none.
pub fn select_single_element<'a>(element: &'a Node, selector: Selector) -> (r: Result<
    &'a Node,
    Error,
>)
    ensures
        ({
            let ms = select_all_spec(*element, selector@);
            match r {
                Ok(n) => ms.len() > 0 && *n == ms[0],
                Err(e) => ms.len() == 0 && e@ == ErrorV::ElementNotFound(selector@),
            }
        }),
{
    let ms = select_elements(element, &selector);
    if ms.len() > 0 {
        let n = ms[0];
        assert(*n == select_all_spec(*element, selector@)[0]);
        Ok(n)
    } else {
        Err(Error::ElementNotFound(selector))
    }
}

/// The text content of the first match of `selector` under `element`, or
/// `ElementNotFound` when nothing matches.
pub fn extract_text(element: &Node, selector: Selector) -> (r: Result<String, Error>)
    ensures
        ({
            let ms = select_all_spec(*element, selector@);
            match r {
                Ok(t) => ms.len() > 0 && t@ == text_of(ms[0]),
                Err(e) => ms.len() == 0 && e@ == ErrorV::ElementNotFound(selector@),
            }
        }),
{
    match select_single_element(element, selector) {
        Ok(n) => {
            let mut s = String::new();
            collect_text(n, &mut s);
            assert(s@ =~= text_of(*n));
            Ok(s)
        }
        Err(e) => Err(e),
    }
}

/// Whether any strict descendant of `element` matches `selector`.
pub fn has_child(element: &Node, selector: &Selector) -> (r: bool)
    ensures
        r == (select_all_spec(*element, selector@).len() > 0),
{
    let ms = select_elements(element, selector);
    ms.len() > 0
}

/// The value of the attribute named `name` on `element`, if present.
pub fn get_attr<'a>(element: &'a Node, name: &String) -> (r: Option<&'a String>)
    ensures
        match r {
            Some(v) => attr_of(*element, name@) == Some(v@),
            None => attr_of(*element, name@) is None,
        },
{
    match element {
        Node::Text(_) => None,
        Node::Element(e) => {
            let mut j: usize = 0;
            while j < e.attrs.len()
                invariant
                    j <= e.attrs@.len(),
                    attr_of(*element, name@) == attr_from(e.attrs@, name@, j as int),
                decreases e.attrs@.len() - j,
            {
                if e.attrs[j].0 == *name {
                    return Some(&e.attrs[j].1);
                }
                j += 1;
            }
            None
        }
    }
}

/// Appends the text content of the nodes `ns[i..]` to `out`.
fn collect_forest(ns: &Vec<Node>, i: usize, out: &mut String)
    requires
        i <= ns@.len(),
    ensures
        final(out)@ == old(out)@ + texts_from(ns@, i as int),
    decreases ns@, ns@.len() - i,
{
    if i == ns.len() {
        assert(old(out)@ + texts_from(ns@, i as int) =~= old(out)@);
    } else {
        collect_text(&ns[i], out);
        collect_forest(ns, i + 1, out);
        assert(out@ == old(out)@ + texts_from(ns@, i as int));
    }
}

} // verus!
