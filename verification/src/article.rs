//! The article record.

use vstd::prelude::*;

verus! {

/// What an article says, as plain sequences of characters.
pub struct ArticleView {
    pub title: Seq<char>,
    pub intro: Seq<char>,
    pub content: Seq<Seq<char>>,
    pub image_path: Seq<char>,
}

/// One published post. It is created once and never changed afterwards.
#[derive(Debug, PartialEq, Eq)]
pub struct Article {
    /// The name of the article.
    pub title: String,
    /// The introduction of the article.
    pub intro: String,
    /// The body of the article, paragraph by paragraph.
    pub content: Vec<String>,
    /// The name under which the article's image is stored.
    pub image_path: String,
}

impl View for Article {
    type V = ArticleView;

    open spec fn view(&self) -> ArticleView {
        ArticleView {
            title: self.title@,
            intro: self.intro@,
            content: self.content@.map_values(|paragraph: String| paragraph@),
            image_path: self.image_path@,
        }
    }
}

impl Clone for Article {
    /// A copy that says the same, field by field.
    fn clone(&self) -> (copy: Self)
        ensures
            copy@ == self@,
    {
        let copy = Article {
            title: self.title.clone(),
            intro: self.intro.clone(),
            content: self.content.clone(),
            image_path: self.image_path.clone(),
        };
        assert(copy@.content =~= self@.content);
        copy
    }
}

} // verus!
