//! General properties of extraction, stated and proved once for all
//! documents.

use vstd::prelude::*;
use crate::article::ArticleV;
use crate::date::Date;
use crate::dom::Node;
use crate::dom::select_all_spec;
use crate::error::ErrorV;
use crate::newsletter::NewsletterV;
use crate::scrape::article_spec;
use crate::scrape::articles_spec;
use crate::scrape::content_sections;
use crate::scrape::is_article_item;
use crate::scrape::items_scrape;
use crate::scrape::scrape_spec;
use crate::scrape::section_items;
use crate::scrape::sections_scrape;
use crate::selector::SelectorV;

verus! {

/// On a document with no element of class `content-center`, extraction
/// fails with `ElementNotFound` for that selector, whatever the category
/// and date.
pub proof fn lemma_no_content_region(root: Node, category: Seq<char>, date: Date)
    requires
        select_all_spec(root, SelectorV::Class("content-center"@)).len() == 0,
    ensures
        scrape_spec(root, category, date) == Err::<NewsletterV, ErrorV>(
            ErrorV::ElementNotFound(SelectorV::Class("content-center"@)),
        ),
{
}

/// On a document whose content region has no `h1` descendant, extraction
/// fails with `ElementNotFound` for `h1`, whatever the rest of the region
/// holds: article extraction is never reached.
pub proof fn lemma_no_title(root: Node, category: Seq<char>, date: Date)
    requires
        select_all_spec(root, SelectorV::Class("content-center"@)).len() > 0,
        select_all_spec(
            select_all_spec(root, SelectorV::Class("content-center"@))[0],
            SelectorV::Tag("h1"@),
        ).len() == 0,
    ensures
        scrape_spec(root, category, date) == Err::<NewsletterV, ErrorV>(
            ErrorV::ElementNotFound(SelectorV::Tag("h1"@)),
        ),
{
}

/// On a document whose content region has an `h1` but no `h2` descendant,
/// extraction fails with `ElementNotFound` for `h2`: article extraction is
/// never reached.
pub proof fn lemma_no_subtitle(root: Node, category: Seq<char>, date: Date)
    requires
        select_all_spec(root, SelectorV::Class("content-center"@)).len() > 0,
        select_all_spec(
            select_all_spec(root, SelectorV::Class("content-center"@))[0],
            SelectorV::Tag("h1"@),
        ).len() > 0,
        select_all_spec(
            select_all_spec(root, SelectorV::Class("content-center"@))[0],
            SelectorV::Tag("h2"@),
        ).len() == 0,
    ensures
        scrape_spec(root, category, date) == Err::<NewsletterV, ErrorV>(
            ErrorV::ElementNotFound(SelectorV::Tag("h2"@)),
        ),
{
}

/// A candidate item without the `a > h3` discriminator is excluded from
/// the walk with no error: the walk of the items from `i` equals the walk
/// from `i + 1`, whatever the sibling items yield.
pub proof fn lemma_non_article_item_skipped(items: Seq<Node>, i: int)
    requires
        0 <= i < items.len(),
        !is_article_item(items[i]),
    ensures
        items_scrape(items, i) == items_scrape(items, i + 1),
{
}

/// The item walk reads only the items from its index on: two item
/// sequences that agree from `i` and `j` to their ends walk alike.
pub proof fn lemma_items_walk_congruent(a: Seq<Node>, i: int, b: Seq<Node>, j: int)
    requires
        0 <= i <= a.len(),
        0 <= j <= b.len(),
        a.len() - i == b.len() - j,
        forall|k: int| 0 <= k < a.len() - i ==> #[trigger] a[i + k] == b[j + k],
    ensures
        items_scrape(a, i) == items_scrape(b, j),
    decreases a.len() - i,
{
    if i < a.len() {
        assert(a[i + 0] == b[j + 0]);
        assert forall|k: int| 0 <= k < a.len() - (i + 1) implies #[trigger] a[i + 1 + k] == b[j
            + 1 + k] by {
            assert(a[i + (k + 1)] == b[j + (k + 1)]);
        }
        lemma_items_walk_congruent(a, i + 1, b, j + 1);
    }
}

/// Removing a candidate item that lacks the discriminator changes nothing:
/// the walk of the remaining items yields the very same result, error or
/// articles alike.
pub proof fn lemma_non_article_item_removed(items: Seq<Node>, m: int, i: int)
    requires
        0 <= i <= m < items.len(),
        !is_article_item(items[m]),
    ensures
        items_scrape(items, i) == items_scrape(items.remove(m), i),
    decreases m - i,
{
    let r = items.remove(m);
    if i == m {
        assert(items_scrape(items, m) == items_scrape(items, m + 1));
        assert forall|k: int| 0 <= k < items.len() - (m + 1) implies #[trigger] items[m + 1
            + k] == r[m + k] by {
            assert(r[m + k] == items[m + k + 1]);
        }
        lemma_items_walk_congruent(items, m + 1, r, m);
    } else {
        assert(r[i] == items[i]);
        lemma_non_article_item_removed(items, m, i + 1);
    }
}

/// The articles of the items `items[i..]` on the assumption that every
/// discriminated item extracts; the value a successful walk must equal.
pub open spec fn ok_items_articles(items: Seq<Node>, i: int) -> Seq<ArticleV>
    decreases items.len() - i,
{
    if i < 0 || i >= items.len() {
        Seq::<ArticleV>::empty()
    } else if is_article_item(items[i]) {
        seq![article_spec(items[i])->Ok_0] + ok_items_articles(items, i + 1)
    } else {
        ok_items_articles(items, i + 1)
    }
}

/// The per-section articles of `sections[i..]`, concatenated in document
/// order, on the assumption that every item walk succeeds.
pub open spec fn ok_sections_articles(sections: Seq<Node>, i: int) -> Seq<ArticleV>
    decreases sections.len() - i,
{
    if i < 0 || i >= sections.len() {
        Seq::<ArticleV>::empty()
    } else {
        ok_items_articles(section_items(sections[i]), 0) + ok_sections_articles(sections, i + 1)
    }
}

/// A successful item walk yields exactly the articles of its discriminated
/// items, in document order; every discriminated item extracted.
pub proof fn lemma_items_document_order(items: Seq<Node>, i: int, r: Seq<ArticleV>)
    requires
        0 <= i <= items.len(),
        items_scrape(items, i) == Ok::<Seq<ArticleV>, ErrorV>(r),
    ensures
        r == ok_items_articles(items, i),
        forall|k: int|
            i <= k < items.len() && is_article_item(items[k]) ==> #[trigger] article_spec(
                items[k],
            ) is Ok,
    decreases items.len() - i,
{
    if i < items.len() {
        let rest_res = items_scrape(items, i + 1);
        if is_article_item(items[i]) {
            assert(article_spec(items[i]) is Ok);
            assert(rest_res is Ok);
            lemma_items_document_order(items, i + 1, rest_res->Ok_0);
        } else {
            assert(rest_res == items_scrape(items, i));
            lemma_items_document_order(items, i + 1, rest_res->Ok_0);
        }
    }
}

/// A successful section walk yields exactly the concatenation of the
/// per-section articles, sections in document order.
pub proof fn lemma_sections_document_order(sections: Seq<Node>, i: int, r: Seq<ArticleV>)
    requires
        0 <= i <= sections.len(),
        sections_scrape(sections, i) == Ok::<Seq<ArticleV>, ErrorV>(r),
    ensures
        r == ok_sections_articles(sections, i),
    decreases sections.len() - i,
{
    if i < sections.len() {
        let first_res = items_scrape(section_items(sections[i]), 0);
        let rest_res = sections_scrape(sections, i + 1);
        assert(first_res is Ok);
        assert(rest_res is Ok);
        lemma_items_document_order(section_items(sections[i]), 0, first_res->Ok_0);
        lemma_sections_document_order(sections, i + 1, rest_res->Ok_0);
    }
}

/// Article order in a successful extraction equals document order: the
/// result is the concatenation of the sections' articles, sections in the
/// order they appear, and within each section its items in the order they
/// appear.
pub proof fn lemma_articles_document_order(content: Node, r: Seq<ArticleV>)
    requires
        articles_spec(content) == Ok::<Seq<ArticleV>, ErrorV>(r),
    ensures
        r == ok_sections_articles(content_sections(content), 0),
{
    lemma_sections_document_order(content_sections(content), 0, r);
}

} // verus!
