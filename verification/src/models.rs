//! Persistent records of the gallery that calls into the codec: users,
//! paintings, carts, orders, comments, and the log of embedded messages.
//! These are plain value types; loading and storing them is the caller's
//! business.

use vstd::prelude::*;

verus! {

/// A registered account, as stored.
#[derive(Debug, Clone)]
pub struct User {
    pub id: String,
    pub username: String,
    pub email: String,
    pub password_hash: String,
    pub role: String,
    pub created_at: String,
    pub updated_at: String,
}

/// The part of a user account that may be shown to others: everything but
/// the password hash and the update stamp.
#[derive(Debug, Clone)]
pub struct UserPublic {
    pub id: String,
    pub username: String,
    pub email: String,
    pub role: String,
    pub created_at: String,
}

impl From<User> for UserPublic {
    fn from(u: User) -> (r: Self) {
        UserPublic {
            id: u.id,
            username: u.username,
            email: u.email,
            role: u.role,
            created_at: u.created_at,
        }
    }
}

impl vstd::std_specs::convert::FromSpecImpl<User> for UserPublic {
    open spec fn obeys_from_spec() -> bool {
        true
    }

    open spec fn from_spec(u: User) -> Self {
        UserPublic {
            id: u.id,
            username: u.username,
            email: u.email,
            role: u.role,
            created_at: u.created_at,
        }
    }
}

/// A painting listed in the gallery.
#[derive(Debug, Clone)]
pub struct Painting {
    pub id: String,
    pub seller_id: String,
    pub title: String,
    pub description: String,
    pub artist: String,
    pub medium: String,
    pub price_cents: i64,
    pub image_path: String,
    pub thumbnail_path: Option<String>,
    pub status: String,
    pub has_steg_message: bool,
    pub steg_decoded: bool,
    pub created_at: String,
    pub updated_at: String,
}

/// A placed order with its shipping details.
#[derive(Debug, Clone)]
pub struct Order {
    pub id: String,
    pub buyer_id: String,
    pub total_cents: i64,
    pub status: String,
    pub shipping_name: String,
    pub shipping_address: String,
    pub shipping_city: String,
    pub shipping_zip: String,
    pub shipping_country: String,
    pub created_at: String,
    pub updated_at: String,
}

/// One line of an order.
#[derive(Debug, Clone)]
pub struct OrderItem {
    pub id: String,
    pub order_id: String,
    pub painting_id: String,
    pub price_cents: i64,
}

/// One painting held in a user's cart.
#[derive(Debug, Clone)]
pub struct CartItem {
    pub id: String,
    pub user_id: String,
    pub painting_id: String,
    pub created_at: String,
}

/// A comment left on a painting.
#[derive(Debug, Clone)]
pub struct Comment {
    pub id: String,
    pub painting_id: String,
    pub user_id: String,
    pub content: String,
    pub status: String,
    pub parent_id: Option<String>,
    pub created_at: String,
    pub updated_at: String,
}

/// One recorded use of the codec against a painting, incoming or outgoing.
#[derive(Debug, Clone)]
pub struct StegMessage {
    pub id: String,
    pub painting_id: String,
    pub direction: String,
    pub message_text: String,
    pub decoded_by: Option<String>,
    pub encoded_by: Option<String>,
    pub created_at: String,
}

} // verus!
