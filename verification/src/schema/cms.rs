//! Pages of text that the site shows.

use vstd::prelude::*;

verus! {

/// A page: its number, the name it is asked for by, and its Markdown.
pub struct Article {
    pub id: i64,
    pub slug: String,
    pub body: String,
}

impl Article {
    /// A page that is part of the program and has no number of its own.
    pub fn hardcoded(slug: &str, body: &str) -> (article: Article)
        ensures
            article.id == 0,
            article.slug@ == slug@,
            article.body@ == body@,
    {
        Article { id: 0, slug: slug.to_owned(), body: body.to_owned() }
    }
}

} // verus!
