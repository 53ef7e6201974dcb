use steg_core::api::{order_total, UpdateCommentStatus, UpdateOrderStatus, UpdateUserRole};
use steg_core::auth::{
    may_add_to_cart, may_modify_comment, may_modify_painting, AdminUser, AuthUser,
};
use steg_core::bits::{bits_to_bytes, bytes_to_bits};
use steg_core::frame::{build_frame, parse_frame};
use steg_core::models::{Comment, Painting, User, UserPublic};
use steg_core::StegError;

#[test]
fn test_bytes_to_bits_msb_first() {
    assert_eq!(bytes_to_bits(&[0xDE]), vec![1, 1, 0, 1, 1, 1, 1, 0]);
    assert_eq!(
        bytes_to_bits(&[0xAD, 0x01]),
        vec![1, 0, 1, 0, 1, 1, 0, 1, 0, 0, 0, 0, 0, 0, 0, 1]
    );
}

#[test]
fn test_bits_to_bytes_groups_of_eight() {
    let bytes = vec![0u8, 1, 2, 127, 128, 254, 255];
    assert_eq!(bits_to_bytes(&bytes_to_bits(&bytes)), bytes);
    // a trailing partial group is dropped
    assert_eq!(bits_to_bytes(&[1, 0, 1, 0, 1, 0, 1, 0, 1]), vec![0xAA]);
    assert_eq!(bits_to_bytes(&[1, 1, 1]), Vec::<u8>::new());
}

#[test]
fn test_build_frame_layout() {
    assert_eq!(build_frame(b"hi"), vec![0xDE, 0xAD, 0, 0, 0, 2, 0x68, 0x69]);
    assert_eq!(build_frame(b""), vec![0xDE, 0xAD, 0, 0, 0, 0]);
}

#[test]
fn test_parse_frame_payload() {
    let frame_bits = bytes_to_bits(&build_frame(b"hi"));
    assert_eq!(parse_frame(&frame_bits), Ok(b"hi".to_vec()));
    // too short for a header
    assert_eq!(parse_frame(&[0u8; 47]), Err(StegError::NoMessageFound));
    // wrong magic
    let bad_bits = bytes_to_bits(&[0xDEu8, 0xAC, 0, 0, 0, 0]);
    assert_eq!(parse_frame(&bad_bits), Err(StegError::NoMessageFound));
    // length field promising more bits than the stream holds
    let short_bits = bytes_to_bits(&[0xDEu8, 0xAD, 0, 0, 0, 9, 0x68, 0x69]);
    assert_eq!(parse_frame(&short_bits), Err(StegError::InvalidLength));
}

fn sample_user() -> User {
    User {
        id: "u-1".to_string(),
        username: "ada".to_string(),
        email: "ada@example.com".to_string(),
        password_hash: "argon2-hash".to_string(),
        role: "customer".to_string(),
        created_at: "2024-01-01".to_string(),
        updated_at: "2024-01-02".to_string(),
    }
}

fn sample_painting(price_cents: i64) -> Painting {
    Painting {
        id: "p-1".to_string(),
        seller_id: "u-1".to_string(),
        title: "Untitled".to_string(),
        description: "".to_string(),
        artist: "Anon".to_string(),
        medium: "oil".to_string(),
        price_cents,
        image_path: "uploads/p-1.png".to_string(),
        thumbnail_path: None,
        status: "active".to_string(),
        has_steg_message: false,
        steg_decoded: false,
        created_at: "2024-01-01".to_string(),
        updated_at: "2024-01-01".to_string(),
    }
}

#[test]
fn test_user_public_from() {
    let pu = UserPublic::from(sample_user());
    assert_eq!(pu.id, "u-1");
    assert_eq!(pu.username, "ada");
    assert_eq!(pu.email, "ada@example.com");
    assert_eq!(pu.role, "customer");
    assert_eq!(pu.created_at, "2024-01-01");
}

#[test]
fn test_admin_check() {
    let admin = AuthUser { user_id: "u-9".to_string(), role: "admin".to_string() };
    assert!(admin.is_admin());
    let confirmed = AdminUser::from_auth(admin).unwrap();
    assert_eq!(confirmed.user_id, "u-9");

    let customer = AuthUser { user_id: "u-1".to_string(), role: "customer".to_string() };
    assert!(!customer.is_admin());
    assert!(AdminUser::from_auth(customer).is_none());
}

#[test]
fn test_status_validators() {
    assert!(UpdateUserRole { role: "customer".to_string() }.is_valid());
    assert!(UpdateUserRole { role: "admin".to_string() }.is_valid());
    assert!(!UpdateUserRole { role: "root".to_string() }.is_valid());

    assert!(UpdateCommentStatus { status: "visible".to_string() }.is_valid());
    assert!(UpdateCommentStatus { status: "flagged".to_string() }.is_valid());
    assert!(!UpdateCommentStatus { status: "deleted".to_string() }.is_valid());

    assert!(UpdateOrderStatus { status: "pending".to_string() }.is_valid());
    assert!(UpdateOrderStatus { status: "cancelled".to_string() }.is_valid());
    assert!(!UpdateOrderStatus { status: "lost".to_string() }.is_valid());
}

fn sample_comment(user_id: &str) -> Comment {
    Comment {
        id: "c-1".to_string(),
        painting_id: "p-1".to_string(),
        user_id: user_id.to_string(),
        content: "lovely".to_string(),
        status: "visible".to_string(),
        parent_id: None,
        created_at: "2024-01-01".to_string(),
        updated_at: "2024-01-01".to_string(),
    }
}

#[test]
fn test_ownership_rules() {
    let author = AuthUser { user_id: "u-1".to_string(), role: "customer".to_string() };
    let stranger = AuthUser { user_id: "u-2".to_string(), role: "customer".to_string() };
    let admin = AuthUser { user_id: "u-9".to_string(), role: "admin".to_string() };

    let comment = sample_comment("u-1");
    assert!(may_modify_comment(&author, &comment));
    assert!(!may_modify_comment(&stranger, &comment));
    assert!(may_modify_comment(&admin, &comment));

    let painting = sample_painting(1000); // sold by u-1
    assert!(may_modify_painting(&author, &painting));
    assert!(!may_modify_painting(&stranger, &painting));
    assert!(may_modify_painting(&admin, &painting));

    assert!(!may_add_to_cart(&author, &painting));
    assert!(may_add_to_cart(&stranger, &painting));
}

#[test]
fn test_order_total() {
    let paintings = vec![sample_painting(1000), sample_painting(2500), sample_painting(0)];
    assert_eq!(order_total(&paintings), 3500);
    assert_eq!(order_total(&Vec::new()), 0);
}
