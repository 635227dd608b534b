//! The admin area: who counts as administrator, and which page they get.

use sha1::{Digest, Sha1};
use vstd::prelude::*;

verus! {

/// The name of the cookie that marks an administrator's session.
pub const ADMIN_COOKIE: &'static str = "admin";

/// The value that the admin cookie must carry.
pub const ADMIN_COOKIE_VALUE: &'static str = "true";

/// The SHA-1 digest of `text`, written as lower-case hexadecimal digits.
/// It stands for what `sha1_hash` returns; this library states nothing of
/// how the digest is computed.
pub uninterp spec fn sha1_hex(text: Seq<char>) -> Seq<char>;

/// Hashes the bytes of `input` with `sha1::Sha1::digest` and writes the
/// digest in lower-case hexadecimal. The contract claims only that the
/// result is a function of the text alone, named `sha1_hex`.
#[verifier::external_body]
fn sha1_hash(input: &str) -> (digest: String)
    ensures
        digest@ == sha1_hex(input@),
{
    format!("{:x}", Sha1::digest(input))
}

/// Whether the two texts are the same, character for character.
fn same_text(left: &str, right: &str) -> (same: bool)
    ensures
        same == (left@ == right@),
{
    left.to_owned() == right.to_owned()
}

/// Knows the administrator's password by its digest only.
pub struct AdminGate {
    password_digest: String,
}

impl AdminGate {
    /// The digest that a password must hash to.
    pub closed spec fn expected_digest(&self) -> Seq<char> {
        self.password_digest@
    }

    /// A gate that admits the password whose SHA-1 digest, in lower-case
    /// hexadecimal, is `password_digest`.
    pub fn new(password_digest: String) -> (gate: Self)
        ensures
            gate.expected_digest() == password_digest@,
    {
        Self { password_digest }
    }

    /// Whether `digest` is the digest of the administrator's password.
    pub fn accepts_digest(&self, digest: &str) -> (accepted: bool)
        ensures
            accepted == (digest@ == self.expected_digest()),
    {
        same_text(digest, self.password_digest.as_str())
    }

    /// Whether `password` is the administrator's password, judged by its
    /// digest. On `true` the caller hands out the admin cookie.
    pub fn login_admin(&self, password: &str) -> (granted: bool)
        ensures
            granted == (sha1_hex(password@) == self.expected_digest()),
    {
        let digest = sha1_hash(password);
        self.accepts_digest(digest.as_str())
    }
}

/// Whether a request is an administrator's, given the value of its admin
/// cookie: the cookie must be there and say `true`.
pub fn is_admin(cookie: Option<&str>) -> (admin: bool)
    ensures
        admin == (cookie matches Some(value) && value@ == ADMIN_COOKIE_VALUE@),
{
    match cookie {
        Some(value) => same_text(value, ADMIN_COOKIE_VALUE),
        None => false,
    }
}

/// The pages of the admin area.
#[derive(Clone, Copy, Debug, PartialEq, Eq, Structural)]
pub enum AdminPage {
    /// The admin's front page.
    Main,
    /// The form for a new article.
    NewArticle,
    /// The login form, shown to whoever is no administrator.
    Login,
}

/// The page served at the root of the admin area.
pub fn admin_main(admin: bool) -> (page: AdminPage)
    ensures
        page == if admin {
            AdminPage::Main
        } else {
            AdminPage::Login
        },
{
    if admin {
        AdminPage::Main
    } else {
        AdminPage::Login
    }
}

/// The page served where a new article is written.
pub fn new_article(admin: bool) -> (page: AdminPage)
    ensures
        page == if admin {
            AdminPage::NewArticle
        } else {
            AdminPage::Login
        },
{
    if admin {
        AdminPage::NewArticle
    } else {
        AdminPage::Login
    }
}

} // verus!
