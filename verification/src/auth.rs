//! Authenticated identities, and the check that separates administrators
//! from ordinary users. Token transport and validation live with the
//! caller; only the decision on the resulting identity is made here.

use vstd::prelude::*;
use crate::models::{Comment, Painting};

verus! {

/// An authenticated user: the identity and role carried by a validated
/// token.
#[derive(Debug, Clone)]
pub struct AuthUser {
    pub user_id: String,
    pub role: String,
}

/// A user confirmed to be an administrator.
#[derive(Debug, Clone)]
pub struct AdminUser {
    pub user_id: String,
}

impl AuthUser {
    /// Whether this user carries the administrator role.
    pub fn is_admin(&self) -> (r: bool)
        ensures
            r == (self.role@ == "admin"@),
    {
        self.role == "admin".to_owned()
    }
}

impl AdminUser {
    /// The admin check: an authenticated user becomes an admin exactly when
    /// their role is `admin`.
    pub fn from_auth(auth: AuthUser) -> (r: Option<AdminUser>)
        ensures
            match r {
                Some(a) => auth.role@ == "admin"@ && a.user_id == auth.user_id,
                None => auth.role@ != "admin"@,
            },
    {
        if auth.is_admin() {
            Some(AdminUser { user_id: auth.user_id })
        } else {
            None
        }
    }
}

/// A comment may be edited or deleted by its author or by an administrator.
pub fn may_modify_comment(auth: &AuthUser, comment: &Comment) -> (r: bool)
    ensures
        r == (comment.user_id@ == auth.user_id@ || auth.role@ == "admin"@),
{
    comment.user_id == auth.user_id || auth.is_admin()
}

/// A painting may be edited or deleted by its seller or by an administrator.
pub fn may_modify_painting(auth: &AuthUser, painting: &Painting) -> (r: bool)
    ensures
        r == (painting.seller_id@ == auth.user_id@ || auth.role@ == "admin"@),
{
    painting.seller_id == auth.user_id || auth.is_admin()
}

/// Sellers may not put their own paintings in their cart.
pub fn may_add_to_cart(auth: &AuthUser, painting: &Painting) -> (r: bool)
    ensures
        r == (painting.seller_id@ != auth.user_id@),
{
    !(painting.seller_id == auth.user_id)
}

} // verus!
