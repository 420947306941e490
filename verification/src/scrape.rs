//! Extraction of a newsletter from an HTML document.
//!
//! The document is parsed by the `scraper` crate into a tree of [`Node`]
//! values; everything after that — locating the content region, the
//! two-level walk over `div` groupings, and the per-article field
//! extraction — is defined by the spec functions of this module and proved
//! of the executable functions.

use vstd::prelude::*;
use vstd::string::StringExecFns;
use crate::article::Article;
use crate::article::ArticleV;
use crate::article::articles_view;
use crate::date::Date;
use crate::dom::Elem;
use crate::dom::Node;
use crate::dom::attr_of;
use crate::dom::extract_text;
use crate::dom::get_attr;
use crate::dom::has_child;
use crate::dom::refs_view;
use crate::dom::select_all_spec;
use crate::dom::select_elements;
use crate::dom::select_single_element;
use crate::dom::text_of;
use crate::error::Error;
use crate::error::ErrorV;
use crate::newsletter::Newsletter;
use crate::newsletter::NewsletterV;
use crate::selector::Selector;
use crate::selector::SelectorV;

verus! {

/// The result of extracting one article from a candidate item: the text of
/// its `> a > h3` heading, the text of its `> div` description, and the
/// `href` of its `> a` anchor — or the first failure among them, in that
/// order.
pub open spec fn article_spec(item: Node) -> Result<ArticleV, ErrorV> {
    let titles = select_all_spec(item, SelectorV::ChildChain("a"@, "h3"@));
    if titles.len() == 0 {
        Err(ErrorV::ElementNotFound(SelectorV::ChildChain("a"@, "h3"@)))
    } else {
        let descs = select_all_spec(item, SelectorV::ChildTag("div"@));
        if descs.len() == 0 {
            Err(ErrorV::ElementNotFound(SelectorV::ChildTag("div"@)))
        } else {
            let anchors = select_all_spec(item, SelectorV::ChildTag("a"@));
            if anchors.len() == 0 {
                Err(ErrorV::ElementNotFound(SelectorV::ChildTag("a"@)))
            } else {
                match attr_of(anchors[0], "href"@) {
                    None => Err(ErrorV::MissingAttribute("href"@)),
                    Some(u) => Ok(
                        ArticleV {
                            title: text_of(titles[0]),
                            description: text_of(descs[0]),
                            url: u,
                        },
                    ),
                }
            }
        }
    }
}

/// The discriminator between an article item and any other sibling
/// content: a direct-child anchor wrapping a direct-child `h3`.
pub open spec fn is_article_item(item: Node) -> bool {
    select_all_spec(item, SelectorV::ChildChain("a"@, "h3"@)).len() > 0
}

/// The articles of the candidate items `items[i..]`, in order: items that
/// lack the discriminator are skipped; an item that has it but fails field
/// extraction aborts the whole walk with its error.
pub open spec fn items_scrape(items: Seq<Node>, i: int) -> Result<Seq<ArticleV>, ErrorV>
    decreases items.len() - i,
{
    if i < 0 || i >= items.len() {
        Ok(Seq::<ArticleV>::empty())
    } else if is_article_item(items[i]) {
        match article_spec(items[i]) {
            Err(e) => Err(e),
            Ok(a) => match items_scrape(items, i + 1) {
                Err(e) => Err(e),
                Ok(rest) => Ok(seq![a] + rest),
            },
        }
    } else {
        items_scrape(items, i + 1)
    }
}

/// The candidate items of a section: its direct child `div` elements.
pub open spec fn section_items(section: Node) -> Seq<Node> {
    select_all_spec(section, SelectorV::ChildTag("div"@))
}

/// The articles of the sections `sections[i..]`, concatenated in document
/// order, or the first error of any item walk.
pub open spec fn sections_scrape(sections: Seq<Node>, i: int) -> Result<Seq<ArticleV>, ErrorV>
    decreases sections.len() - i,
{
    if i < 0 || i >= sections.len() {
        Ok(Seq::<ArticleV>::empty())
    } else {
        match items_scrape(section_items(sections[i]), 0) {
            Err(e) => Err(e),
            Ok(first) => match sections_scrape(sections, i + 1) {
                Err(e) => Err(e),
                Ok(rest) => Ok(first + rest),
            },
        }
    }
}

/// The sections of the content region: its direct child `div` elements.
pub open spec fn content_sections(content: Node) -> Seq<Node> {
    select_all_spec(content, SelectorV::ChildTag("div"@))
}

/// The article list of the content region.
pub open spec fn articles_spec(content: Node) -> Result<Seq<ArticleV>, ErrorV> {
    sections_scrape(content_sections(content), 0)
}

/// What extraction yields on the document `root` with the caller-supplied
/// `category` and `date`: the first `.content-center` descendant is the
/// content region, its first `h1` and `h2` descendants give title and
/// subtitle, and its two-level `div` grouping gives the articles; the
/// first absent element aborts with `ElementNotFound`.
pub open spec fn scrape_spec(root: Node, category: Seq<char>, date: Date) -> Result<
    NewsletterV,
    ErrorV,
> {
    let contents = select_all_spec(root, SelectorV::Class("content-center"@));
    if contents.len() == 0 {
        Err(ErrorV::ElementNotFound(SelectorV::Class("content-center"@)))
    } else {
        let content = contents[0];
        let h1s = select_all_spec(content, SelectorV::Tag("h1"@));
        if h1s.len() == 0 {
            Err(ErrorV::ElementNotFound(SelectorV::Tag("h1"@)))
        } else {
            let h2s = select_all_spec(content, SelectorV::Tag("h2"@));
            if h2s.len() == 0 {
                Err(ErrorV::ElementNotFound(SelectorV::Tag("h2"@)))
            } else {
                match articles_spec(content) {
                    Err(e) => Err(e),
                    Ok(arts) => Ok(
                        NewsletterV {
                            title: text_of(h1s[0]),
                            subtitle: text_of(h2s[0]),
                            category: category,
                            date: date,
                            articles: arts,
                        },
                    ),
                }
            }
        }
    }
}

/// The mathematical shape of an extraction result.
pub open spec fn res_view(r: Result<Newsletter, Error>) -> Result<NewsletterV, ErrorV> {
    match r {
        Ok(n) => Ok(n@),
        Err(e) => Err(e@),
    }
}

/// Extracts one article from a candidate item.
pub fn scrape_article(item: &Node) -> (r: Result<Article, Error>)
    ensures
        match r {
            Ok(a) => article_spec(*item) == Ok::<ArticleV, ErrorV>(a@),
            Err(e) => article_spec(*item) == Err::<ArticleV, ErrorV>(e@),
        },
{
    let title = match extract_text(item, Selector::child_chain("a", "h3")) {
        Ok(t) => t,
        Err(e) => {
            return Err(e);
        }
    };
    let description = match extract_text(item, Selector::child_tag("div")) {
        Ok(t) => t,
        Err(e) => {
            return Err(e);
        }
    };
    let anchor = match select_single_element(item, Selector::child_tag("a")) {
        Ok(n) => n,
        Err(e) => {
            return Err(e);
        }
    };
    let href = String::from_str("href");
    match get_attr(anchor, &href) {
        Some(u) => Ok(Article { title, description, url: u.clone() }),
        None => Err(Error::MissingAttribute(href)),
    }
}

/// The articles of the candidate items `items[i..]`.
fn items_walk(items: &Vec<&Node>, i: usize) -> (r: Result<Vec<Article>, Error>)
    requires
        i <= items@.len(),
    ensures
        match r {
            Ok(arts) => items_scrape(refs_view(items@), i as int) == Ok::<Seq<ArticleV>, ErrorV>(
                articles_view(arts@),
            ),
            Err(e) => items_scrape(refs_view(items@), i as int) == Err::<Seq<ArticleV>, ErrorV>(
                e@,
            ),
        },
    decreases items@.len() - i,
{
    if i == items.len() {
        let empty: Vec<Article> = Vec::new();
        proof {
            assert(refs_view(items@).len() == items@.len());
            assert(articles_view(empty@) =~= Seq::<ArticleV>::empty());
        }
        Ok(empty)
    } else {
        let item: &Node = items[i];
        proof {
            assert(refs_view(items@)[i as int] == *items@[i as int]);
        }
        if has_child(item, &Selector::child_chain("a", "h3")) {
            match scrape_article(item) {
                Err(e) => Err(e),
                Ok(a) => match items_walk(items, i + 1) {
                    Err(e) => Err(e),
                    Ok(rest) => {
                        let ghost a_snap = a;
                        let ghost rest_seq = rest@;
                        let mut out: Vec<Article> = Vec::new();
                        out.push(a);
                        let mut rest_m = rest;
                        out.append(&mut rest_m);
                        proof {
                            assert(out@ =~= seq![a_snap] + rest_seq);
                            assert(articles_view(out@) =~= seq![a_snap@] + articles_view(
                                rest_seq,
                            ));
                        }
                        Ok(out)
                    }
                },
            }
        } else {
            items_walk(items, i + 1)
        }
    }
}

/// The articles of the sections `sections[i..]`, concatenated in order.
fn sections_walk(sections: &Vec<&Node>, i: usize) -> (r: Result<Vec<Article>, Error>)
    requires
        i <= sections@.len(),
    ensures
        match r {
            Ok(arts) => sections_scrape(refs_view(sections@), i as int) == Ok::<
                Seq<ArticleV>,
                ErrorV,
            >(articles_view(arts@)),
            Err(e) => sections_scrape(refs_view(sections@), i as int) == Err::<
                Seq<ArticleV>,
                ErrorV,
            >(e@),
        },
    decreases sections@.len() - i,
{
    if i == sections.len() {
        let empty: Vec<Article> = Vec::new();
        proof {
            assert(refs_view(sections@).len() == sections@.len());
            assert(articles_view(empty@) =~= Seq::<ArticleV>::empty());
        }
        Ok(empty)
    } else {
        let section: &Node = sections[i];
        proof {
            assert(refs_view(sections@)[i as int] == *sections@[i as int]);
        }
        let items = select_elements(section, &Selector::child_tag("div"));
        match items_walk(&items, 0) {
            Err(e) => Err(e),
            Ok(first) => match sections_walk(sections, i + 1) {
                Err(e) => Err(e),
                Ok(rest) => {
                    let ghost first_seq = first@;
                    let ghost rest_seq = rest@;
                    let mut out = first;
                    let mut rest_m = rest;
                    out.append(&mut rest_m);
                    proof {
                        assert(out@ =~= first_seq + rest_seq);
                        assert(articles_view(out@) =~= articles_view(first_seq)
                            + articles_view(rest_seq));
                    }
                    Ok(out)
                }
            },
        }
    }
}

/// Walks the two-level `div` grouping of the content region and extracts
/// the articles in document order.
pub fn scrape_articles(content: &Node) -> (r: Result<Vec<Article>, Error>)
    ensures
        match r {
            Ok(arts) => articles_spec(*content) == Ok::<Seq<ArticleV>, ErrorV>(
                articles_view(arts@),
            ),
            Err(e) => articles_spec(*content) == Err::<Seq<ArticleV>, ErrorV>(e@),
        },
{
    let sections = select_elements(content, &Selector::child_tag("div"));
    sections_walk(&sections, 0)
}

/// Extracts the newsletter of the document `root`, tagged with the
/// caller-supplied `category` and `date`.
pub fn scrape_document(root: &Node, category: String, date: Date) -> (r: Result<Newsletter, Error>)
    ensures
        res_view(r) == scrape_spec(*root, category@, date),
{
    let content = match select_single_element(root, Selector::class("content-center")) {
        Ok(c) => c,
        Err(e) => {
            return Err(e);
        }
    };
    let title = match extract_text(content, Selector::tag("h1")) {
        Ok(t) => t,
        Err(e) => {
            return Err(e);
        }
    };
    let subtitle = match extract_text(content, Selector::tag("h2")) {
        Ok(t) => t,
        Err(e) => {
            return Err(e);
        }
    };
    let articles = match scrape_articles(content) {
        Ok(a) => a,
        Err(e) => {
            return Err(e);
        }
    };
    Ok(Newsletter { title, subtitle, category, date, articles })
}

/// What `scraper`'s document parsing yields for a given input, as a tree
/// of this library's nodes. Parsing is error-recovering and never fails;
/// its result depends on the input text alone.
pub uninterp spec fn parsed_doc(html: Seq<char>) -> Node;

#[verifier::external_type_specification]
#[verifier::external_body]
pub struct ExElementRef<'a>(scraper::ElementRef<'a>);

/// Relies on `scraper::Html::parse_document`: parses any input with the
/// error recovery of the HTML specification into a document tree whose
/// root is an `html` element, deterministically in the input text.
#[verifier::external_body]
fn parse_html(html: &str) -> (r: Node)
    ensures
        r == parsed_doc(html@),
{
    let doc = scraper::Html::parse_document(html);
    convert_element(doc.root_element())
}

/// Relies on `scraper`'s tree accessors (`Element::name`, `classes`,
/// `attrs`, node children, text nodes): copies an element subtree into
/// this library's nodes, keeping document order; comments, doctypes and
/// processing instructions carry no text and are left out.
#[verifier::external_body]
fn convert_element(el: scraper::ElementRef<'_>) -> Node {
    let v = el.value();
    let mut children: Vec<Node> = Vec::new();
    for child in el.children() {
        match (child.value().as_text(), scraper::ElementRef::wrap(child)) {
            (Some(t), _) => children.push(Node::Text(t.to_string())),
            (None, Some(e)) => children.push(convert_element(e)),
            (None, None) => {}
        }
    }
    let tag = v.name().to_string();
    let classes = v.classes().map(|c| c.to_string()).collect();
    let attrs = v.attrs().map(|(k, a)| (k.to_string(), a.to_string())).collect();
    Node::Element(Elem { tag, classes, attrs, children })
}

/// Parses `html` and extracts its newsletter, tagged with the
/// caller-supplied `category` and `date`.
pub fn scrape(html: String, category: String, date: Date) -> (r: Result<Newsletter, Error>)
    ensures
        res_view(r) == scrape_spec(parsed_doc(html@), category@, date),
{
    let root = parse_html(html.as_str());
    scrape_document(&root, category, date)
}

} // verus!
