//! The newsletter record: the terminal output of extraction.

use vstd::prelude::*;
use crate::article::Article;
use crate::article::ArticleV;
use crate::article::articles_view;
use crate::date::Date;
use crate::error::Error;
use crate::scrape::parsed_doc;
use crate::scrape::res_view;
use crate::scrape::scrape_spec;
use vstd::string::StringExecFns;

verus! {

/// One dated newsletter page: its heading and subheading, the articles in
/// document order, and the caller-supplied category and date.
///
/// `title`, `subtitle` and `articles` are derived from the HTML content
/// region; `category` and `date` are inputs of the caller, never read from
/// the page.
#[derive(Clone, Debug, PartialEq, Eq)]
pub struct Newsletter {
    pub title: String,
    pub subtitle: String,
    pub category: String,
    pub date: Date,
    pub articles: Vec<Article>,
}

/// The mathematical shape of a [`Newsletter`].
pub struct NewsletterV {
    pub title: Seq<char>,
    pub subtitle: Seq<char>,
    pub category: Seq<char>,
    pub date: Date,
    pub articles: Seq<ArticleV>,
}

impl View for Newsletter {
    type V = NewsletterV;

    open spec fn view(&self) -> NewsletterV {
        NewsletterV {
            title: self.title@,
            subtitle: self.subtitle@,
            category: self.category@,
            date: self.date,
            articles: articles_view(self.articles@),
        }
    }
}

impl Newsletter {
    /// Extracts the newsletter of `html`, tagged with the caller-supplied
    /// `category` and `date`.
    pub fn from_html(category: &str, date: Date, html: String) -> (r: Result<Newsletter, Error>)
        ensures
            res_view(r) == scrape_spec(parsed_doc(html@), category@, date),
    {
        crate::scrape::scrape(html, String::from_str(category), date)
    }
}

} // verus!
