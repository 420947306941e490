//! Extraction of structured newsletter records from HTML documents.
//!
//! The library models a parsed HTML document as a tree of [`Node`] values,
//! evaluates a small family of CSS-like selectors over that tree, and walks
//! a two-level grouping of `div` elements to recover the articles of a
//! newsletter page.

mod article;
mod codec;
mod date;
mod dom;
mod error;
mod laws;
mod newsletter;
mod scrape;
mod selector;

pub use article::Article;
pub use article::ArticleV;
pub use codec::deser_newsletter;
pub use codec::deserialize_newsletter;
pub use codec::lemma_round_trip;
pub use codec::ser_newsletter;
pub use codec::serialize_newsletter;
pub use date::Date;
pub use dom::Elem;
pub use dom::Node;
pub use dom::collect_text;
pub use dom::extract_text;
pub use dom::get_attr;
pub use dom::has_child;
pub use dom::select_elements;
pub use dom::select_single_element;
pub use error::Error;
pub use error::ErrorV;
pub use laws::lemma_articles_document_order;
pub use laws::lemma_items_document_order;
pub use laws::lemma_no_content_region;
pub use laws::lemma_no_subtitle;
pub use laws::lemma_no_title;
pub use laws::lemma_items_walk_congruent;
pub use laws::lemma_non_article_item_removed;
pub use laws::lemma_non_article_item_skipped;
pub use laws::lemma_sections_document_order;
pub use laws::ok_items_articles;
pub use laws::ok_sections_articles;
pub use newsletter::Newsletter;
pub use newsletter::NewsletterV;
pub use scrape::scrape;
pub use scrape::scrape_article;
pub use scrape::scrape_articles;
pub use scrape::scrape_document;
pub use selector::Selector;
pub use selector::SelectorV;
