//! Request and response shapes of the gallery endpoints around the codec,
//! and the few decisions those endpoints make that are worth checking:
//! which role and status words are accepted, and how an order total is
//! summed. Transport, queries and storage stay with the caller.

use vstd::prelude::*;
use crate::models::{CartItem, Comment, Order, OrderItem, Painting, StegMessage, UserPublic};

verus! {

/// Counters shown on the admin dashboard.
#[derive(Debug, Clone)]
pub struct AdminStats {
    pub total_users: i64,
    pub total_paintings: i64,
    pub total_orders: i64,
    pub total_comments: i64,
    pub total_revenue_cents: i64,
    pub steg_paintings: i64,
}

/// Request to change a user's role.
#[derive(Debug, Clone)]
pub struct UpdateUserRole {
    pub role: String,
}

impl UpdateUserRole {
    /// Only the two known roles are accepted.
    pub fn is_valid(&self) -> (r: bool)
        ensures
            r == (self.role@ == "customer"@ || self.role@ == "admin"@),
    {
        self.role == "customer".to_owned() || self.role == "admin".to_owned()
    }
}

/// Request to change a painting's status.
#[derive(Debug, Clone)]
pub struct UpdatePaintingStatus {
    pub status: String,
}

/// Request to change a comment's moderation status.
#[derive(Debug, Clone)]
pub struct UpdateCommentStatus {
    pub status: String,
}

impl UpdateCommentStatus {
    /// Only the three known moderation states are accepted.
    pub fn is_valid(&self) -> (r: bool)
        ensures
            r == (self.status@ == "visible"@ || self.status@ == "hidden"@ || self.status@
                == "flagged"@),
    {
        self.status == "visible".to_owned() || self.status == "hidden".to_owned() || self.status
            == "flagged".to_owned()
    }
}

/// Request to change an order's fulfilment status.
#[derive(Debug, Clone)]
pub struct UpdateOrderStatus {
    pub status: String,
}

impl UpdateOrderStatus {
    /// Only the five known fulfilment states are accepted.
    pub fn is_valid(&self) -> (r: bool)
        ensures
            r == (self.status@ == "pending"@ || self.status@ == "confirmed"@ || self.status@
                == "shipped"@ || self.status@ == "delivered"@ || self.status@ == "cancelled"@),
    {
        self.status == "pending".to_owned() || self.status == "confirmed".to_owned() || self.status
            == "shipped".to_owned() || self.status == "delivered".to_owned() || self.status
            == "cancelled".to_owned()
    }
}

/// Sign-up request.
#[derive(Debug, Clone)]
pub struct RegisterRequest {
    pub username: String,
    pub email: String,
    pub password: String,
}

/// Sign-in request.
#[derive(Debug, Clone)]
pub struct LoginRequest {
    pub email: String,
    pub password: String,
}

/// Reply to a successful registration or login.
#[derive(Debug, Clone)]
pub struct AuthResponse {
    pub token: String,
    pub user: UserPublic,
}

/// One cart line joined with the painting it refers to.
#[derive(Debug, Clone)]
pub struct CartItemWithPainting {
    pub cart_item: CartItem,
    pub painting: Painting,
}

/// Request to put a painting in the cart.
#[derive(Debug, Clone)]
pub struct AddToCart {
    pub painting_id: String,
}

/// Request to leave a comment.
#[derive(Debug, Clone)]
pub struct CreateComment {
    pub content: String,
    pub parent_id: Option<String>,
}

/// Request to edit a comment.
#[derive(Debug, Clone)]
pub struct UpdateComment {
    pub content: Option<String>,
}

/// Shipping details for a checkout.
#[derive(Debug, Clone)]
pub struct CheckoutRequest {
    pub shipping_name: String,
    pub shipping_address: String,
    pub shipping_city: String,
    pub shipping_zip: String,
    pub shipping_country: String,
}

/// An order joined with its lines.
#[derive(Debug, Clone)]
pub struct OrderWithItems {
    pub order: Order,
    pub items: Vec<OrderItemWithPainting>,
}

/// One order line joined with the painting it refers to.
#[derive(Debug, Clone)]
pub struct OrderItemWithPainting {
    pub order_item: OrderItem,
    pub painting: Painting,
}

/// Filters for listing paintings.
#[derive(Debug, Clone)]
pub struct ListQuery {
    pub search: Option<String>,
    pub medium: Option<String>,
    pub min_price: Option<i64>,
    pub max_price: Option<i64>,
    pub status: Option<String>,
    pub seller_id: Option<String>,
}

/// A page of paintings with the total count of matches.
#[derive(Debug, Clone)]
pub struct PaintingList {
    pub paintings: Vec<Painting>,
    pub total: i64,
}

/// Request to edit a painting; absent fields stay unchanged.
#[derive(Debug, Clone)]
pub struct UpdatePainting {
    pub title: Option<String>,
    pub description: Option<String>,
    pub artist: Option<String>,
    pub medium: Option<String>,
    pub price_cents: Option<i64>,
    pub status: Option<String>,
}

/// Reply to decoding a hidden message out of a painting.
#[derive(Debug, Clone)]
pub struct DecodeResponse {
    pub message: String,
    pub painting_id: String,
    pub steg_message: StegMessage,
}

/// Request to embed a message into a painting.
#[derive(Debug, Clone)]
pub struct EncodeRequest {
    pub painting_id: String,
    pub message: String,
}

/// Reply to embedding a message into a painting.
#[derive(Debug, Clone)]
pub struct EncodeResponse {
    pub success: bool,
    pub painting_id: String,
    pub steg_message: StegMessage,
}

/// The sum of the prices of a sequence of paintings, in cents.
pub open spec fn sum_prices(s: Seq<Painting>) -> int
    decreases s.len(),
{
    if s.len() == 0 {
        0
    } else {
        sum_prices(s.drop_last()) + s.last().price_cents
    }
}

/// With no negative prices, the sum of a prefix is non-negative and never
/// exceeds the sum of the whole.
pub proof fn lemma_sum_prices_prefix(s: Seq<Painting>, j: int)
    requires
        0 <= j <= s.len(),
        forall|m: int| 0 <= m < s.len() ==> 0 <= #[trigger] s[m].price_cents,
    ensures
        0 <= sum_prices(s.subrange(0, j)) <= sum_prices(s),
    decreases s.len(),
{
    if s.len() == 0 {
        assert(s.subrange(0, j) =~= s);
    } else if j == s.len() {
        assert(s.subrange(0, j) =~= s);
        lemma_sum_prices_prefix(s.drop_last(), s.len() - 1);
        assert(s.drop_last().subrange(0, s.len() - 1) =~= s.drop_last());
    } else {
        lemma_sum_prices_prefix(s.drop_last(), j);
        assert(s.drop_last().subrange(0, j) =~= s.subrange(0, j));
    }
}

/// Total an order the way checkout does: price by price over the cart's
/// paintings.
pub fn order_total(paintings: &Vec<Painting>) -> (total: i64)
    requires
        forall|m: int| 0 <= m < paintings@.len() ==> 0 <= #[trigger] paintings@[m].price_cents,
        sum_prices(paintings@) <= i64::MAX,
    ensures
        total == sum_prices(paintings@),
{
    let mut total: i64 = 0;
    let n = paintings.len();
    for i in 0..n
        invariant
            n == paintings@.len(),
            forall|m: int| 0 <= m < paintings@.len() ==> 0 <= #[trigger] paintings@[m].price_cents,
            sum_prices(paintings@) <= i64::MAX,
            total == sum_prices(paintings@.subrange(0, i as int)),
    {
        proof {
            lemma_sum_prices_prefix(paintings@, i + 1);
            assert(paintings@.subrange(0, i + 1).drop_last() =~= paintings@.subrange(0, i as int));
            assert(paintings@.subrange(0, i + 1).last() == paintings@[i as int]);
        }
        total = total + paintings[i].price_cents;
    }
    proof {
        assert(paintings@.subrange(0, n as int) =~= paintings@);
    }
    total
}

} // verus!
