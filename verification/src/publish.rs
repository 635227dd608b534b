//! Publishing: what becomes of a request to create an article.

use crate::article::{Article, ArticleView};
use crate::images::{upload_file, upload_path};
use crate::random::is_random_id;
use crate::snapshot::{entry_views, is_snapshot_of, Entry};
use crate::store::ArticleStore;
use vstd::prelude::*;

verus! {

/// What the form for a new article carried.
#[derive(Debug, PartialEq, Eq)]
pub struct ArticlePost {
    /// The name of the article.
    pub title: String,
    /// The introduction of the article.
    pub intro: String,
    /// The body of the article, paragraph by paragraph.
    pub content: Vec<String>,
    /// The name that the uploaded image came with, if it came with one.
    pub image: Option<String>,
}

impl ArticlePost {
    /// The article that this form describes. Its image path is the name
    /// that the uploaded image came with.
    pub open spec fn article(&self) -> ArticleView
        recommends
            self.image is Some,
    {
        ArticleView {
            title: self.title@,
            intro: self.intro@,
            content: self.content@.map_values(|paragraph: String| paragraph@),
            image_path: self.image.unwrap()@,
        }
    }
}

/// Where a client is sent once its request has been dealt with.
#[derive(Clone, Copy, Debug, PartialEq, Eq, Structural)]
pub enum Redirect {
    /// The front page of the site.
    Home,
    /// The front page of the admin area.
    Admin,
}

impl Redirect {
    /// The path that the client is sent to.
    pub fn path(&self) -> (path: &'static str)
        ensures
            path@ == match self {
                Redirect::Home => "/"@,
                Redirect::Admin => "/admin"@,
            },
    {
        match self {
            Redirect::Home => "/",
            Redirect::Admin => "/admin",
        }
    }
}

/// Why a request to create an article was turned down.
#[derive(Clone, Copy, Debug, PartialEq, Eq, Structural)]
pub enum Rejection {
    /// The request did not come from an administrator.
    NotAdmin,
    /// The request carried no form, or a form without a named image.
    MissingData,
}

impl Rejection {
    /// The line reported on the server for this rejection.
    pub fn message(&self) -> (text: &'static str)
        ensures
            text@ == match self {
                Rejection::NotAdmin => "error: POST request without grade admin"@,
                Rejection::MissingData => "error: POST request without same data"@,
            },
    {
        match self {
            Rejection::NotAdmin => "error: POST request without grade admin",
            Rejection::MissingData => "error: POST request without same data",
        }
    }
}

/// An article on its way into the store, with the file that its image is
/// to be written to.
#[derive(Debug, PartialEq, Eq)]
pub struct Accepted {
    pub article: Article,
    pub image_file: String,
}

/// Decides whether a request may create an article. Only an administrator
/// may; the request must carry a form, and the form a named image.
pub fn decide(admin: bool, post: Option<ArticlePost>) -> (verdict: Result<Accepted, Rejection>)
    ensures
        match verdict {
            Ok(accepted) => {
                &&& admin
                &&& post matches Some(form)
                &&& form.image matches Some(name)
                &&& accepted.article@ == form.article()
                &&& accepted.image_file@ == upload_path(name@)
            },
            Err(Rejection::NotAdmin) => !admin,
            Err(Rejection::MissingData) => admin && !(post matches Some(form) && form.image is Some),
        },
{
    if !admin {
        return Err(Rejection::NotAdmin);
    }
    match post {
        Some(ArticlePost { title, intro, content, image: Some(name) }) => {
            let image_file = upload_file(name.as_str());
            Ok(Accepted { article: Article { title, intro, content, image_path: name }, image_file })
        },
        _ => Err(Rejection::MissingData),
    }
}

/// What a request to create an article came to.
#[derive(Debug, PartialEq, Eq)]
pub enum Outcome {
    /// Nothing was stored.
    Rejected(Rejection),
    /// The article was stored under `id`. Its image belongs in
    /// `image_file`, and `snapshot`, which lists the whole store as it is
    /// with the new article in it, is to be written out.
    Stored { id: u128, image_file: String, snapshot: Vec<Entry> },
}

impl Outcome {
    /// Where the client is sent: to the front page when it is no
    /// administrator, to the admin area otherwise.
    pub fn redirect(&self) -> (target: Redirect)
        ensures
            target == match self {
                Outcome::Rejected(Rejection::NotAdmin) => Redirect::Home,
                _ => Redirect::Admin,
            },
    {
        match self {
            Outcome::Rejected(Rejection::NotAdmin) => Redirect::Home,
            _ => Redirect::Admin,
        }
    }
}

/// Handles a request to create an article. A request that `decide` accepts
/// has its article stored under a fresh random identifier; any other leaves
/// the store as it is and asks for nothing to be written.
pub fn add_article(store: &mut ArticleStore, admin: bool, post: Option<ArticlePost>) -> (outcome:
    Outcome)
    ensures
        !admin ==> final(store)@ == old(store)@ && (outcome matches Outcome::Rejected(
            Rejection::NotAdmin,
        )),
        match outcome {
            Outcome::Stored { id, image_file, snapshot } => {
                &&& admin
                &&& post matches Some(form)
                &&& form.image matches Some(name)
                &&& is_random_id(id)
                &&& final(store)@ == old(store)@.insert(id, form.article())
                &&& image_file@ == upload_path(name@)
                &&& is_snapshot_of(entry_views(snapshot@), final(store)@)
            },
            Outcome::Rejected(Rejection::NotAdmin) => !admin && final(store)@ == old(store)@,
            Outcome::Rejected(Rejection::MissingData) => {
                &&& admin
                &&& !(post matches Some(form) && form.image is Some)
                &&& final(store)@ == old(store)@
            },
        },
{
    match decide(admin, post) {
        Ok(accepted) => {
            let id = store.insert_random(accepted.article);
            Outcome::Stored { id, image_file: accepted.image_file, snapshot: store.snapshot() }
        },
        Err(rejection) => Outcome::Rejected(rejection),
    }
}

} // verus!
