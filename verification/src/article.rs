//! A single article of a newsletter page.

use vstd::prelude::*;

verus! {

/// One article: its heading, its description, and the address it links to.
/// All three are derived from the HTML content region.
#[derive(Clone, Debug, PartialEq, Eq)]
pub struct Article {
    pub title: String,
    pub description: String,
    pub url: String,
}

/// The mathematical shape of an [`Article`]: its three fields as character
/// sequences.
pub struct ArticleV {
    pub title: Seq<char>,
    pub description: Seq<char>,
    pub url: Seq<char>,
}

impl View for Article {
    type V = ArticleV;

    open spec fn view(&self) -> ArticleV {
        ArticleV { title: self.title@, description: self.description@, url: self.url@ }
    }
}

/// The articles a sequence of records stands for, in the same order.
pub open spec fn articles_view(arts: Seq<Article>) -> Seq<ArticleV> {
    arts.map_values(|a: Article| a@)
}

} // verus!
