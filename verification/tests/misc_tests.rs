use chat_auth::avatar::{generate_avatar, AvatarType};
use chat_auth::chats::{
    check_message, joined_notice, left_notice, page_window, CreateChatRequest, ReplyChatRequest,
    PAGE_LIMIT,
};
use chat_auth::pagination::PaginationMeta;
use chat_auth::text::{is_blank, is_whitespace, trimmed_tail};
use chat_auth::users::{
    availability_answer, check_available, get_tag, register_user, registration, CheckParams,
    CheckRefusal, UserRegistration,
};

#[test]
fn avatar_styles_have_their_names() {
    assert_eq!(AvatarType::Personas.as_str(), "personas");
    assert_eq!(AvatarType::Initials.as_str(), "initials");
    assert_eq!(AvatarType::Shapes.as_str(), "shapes");
    assert_eq!(AvatarType::Identicon.as_str(), "identicon");
    assert_eq!(AvatarType::Bottts.as_str(), "bottts");
    assert_eq!(AvatarType::Avataaars.as_str(), "avataaars");
    assert_eq!(AvatarType::Bottts.to_string(), "bottts");
}

#[test]
fn avatar_address_names_style_and_nickname() {
    assert_eq!(
        generate_avatar("alice".to_string(), AvatarType::Identicon),
        "https://api.dicebear.com/9.x/identicon/svg?seed=alice"
    );
    assert_eq!(
        generate_avatar(String::new(), AvatarType::Personas),
        "https://api.dicebear.com/9.x/personas/svg?seed="
    );
    assert_eq!(
        generate_avatar("a b&c".to_string(), AvatarType::Shapes),
        "https://api.dicebear.com/9.x/shapes/svg?seed=a b&c"
    );
}

#[test]
fn pages_are_counted_rounding_up() {
    let meta = PaginationMeta::new(2, 100, 250);
    assert_eq!(
        meta,
        PaginationMeta {
            current_page: 2,
            per_page: 100,
            total: 250,
            total_pages: 3,
            has_next: true,
            has_prev: true,
        }
    );
    assert_eq!(PaginationMeta::new(1, 100, 0).total_pages, 0);
    assert_eq!(PaginationMeta::new(1, 100, 1).total_pages, 1);
    assert_eq!(PaginationMeta::new(1, 100, 100).total_pages, 1);
    assert_eq!(PaginationMeta::new(1, 100, 101).total_pages, 2);
    assert_eq!(PaginationMeta::new(1, 1, 7).total_pages, 7);
}

#[test]
fn next_and_previous_pages() {
    let first = PaginationMeta::new(1, 10, 30);
    assert!(first.has_next);
    assert!(!first.has_prev);
    let last = PaginationMeta::new(3, 10, 30);
    assert!(!last.has_next);
    assert!(last.has_prev);
    let empty = PaginationMeta::new(1, 100, 0);
    assert!(!empty.has_next);
    assert!(!empty.has_prev);
    let before_first = PaginationMeta::new(0, 10, 30);
    assert!(before_first.has_next);
    assert!(!before_first.has_prev);
}

#[test]
fn page_count_at_the_limits() {
    assert_eq!(PaginationMeta::new(1, 1, i64::MAX).total_pages, i64::MAX);
    assert_eq!(PaginationMeta::new(1, i64::MAX, 1).total_pages, 1);
    assert_eq!(PaginationMeta::new(1, 10, -5).total_pages, 0);
    assert_eq!(PaginationMeta::new(1, 10, -25).total_pages, -1);
    assert_eq!(PaginationMeta::new(1, 10, i64::MIN).total_pages, -922337203685477579);
}

#[test]
fn page_count_with_a_negative_page_size() {
    assert_eq!(PaginationMeta::new(1, -10, 25).total_pages, -1);
    assert_eq!(PaginationMeta::new(1, -10, 5).total_pages, 0);
    assert_eq!(PaginationMeta::new(1, -1, -7).total_pages, 9);
    assert_eq!(PaginationMeta::new(1, -2, i64::MIN + 3).total_pages, 4611686018427387904);
    assert_eq!(PaginationMeta::new(1, i64::MIN, 2).total_pages, 0);
    assert_eq!(PaginationMeta::new(1, i64::MIN, 1).total_pages, 1);
    assert!(!PaginationMeta::new(1, -10, 25).has_next);
}

#[test]
fn white_space_is_what_std_calls_white_space() {
    for code in 0..=0x10ffffu32 {
        if let Some(c) = char::from_u32(code) {
            assert_eq!(is_whitespace(c), c.is_whitespace());
        }
    }
}

#[test]
fn blank_texts() {
    assert!(is_blank(""));
    assert!(is_blank(" "));
    assert!(is_blank(" \t\r\n\u{a0}\u{3000}"));
    assert!(!is_blank("a"));
    assert!(!is_blank("  a  "));
    assert!(!is_blank("\u{200b}"));
}

#[test]
fn trimming_is_what_std_does() {
    for text in ["", " ", "a", " a", "a ", "  a b  ", "\t\n a\u{a0}", "\u{3000}\u{e9} x\u{2028}", " \u{200b} "] {
        assert_eq!(trimmed_tail(text, 0), text.trim());
    }
    assert_eq!(trimmed_tail("Bearer  abc ", 7), "abc");
    assert_eq!(trimmed_tail("abc", 3), "");
    assert_eq!(trimmed_tail("\u{e9}\u{e9} x ", 2), "x");
}

#[test]
fn blank_messages_are_refused() {
    assert_eq!(check_message("hello"), Ok(()));
    assert_eq!(check_message(" hello "), Ok(()));
    assert_eq!(check_message(""), Err((400, "Message cannot be empty")));
    assert_eq!(check_message("   "), Err((400, "Message cannot be empty")));
    assert_eq!(check_message("\n\t\u{a0}"), Err((400, "Message cannot be empty")));
    let request = CreateChatRequest { message: " ".to_string(), attachment: None, reply_id: Some(1) };
    assert_eq!(request.validate(), Err((400, "Message cannot be empty")));
    let reply = ReplyChatRequest { message: "ok".to_string(), attachment: None };
    assert_eq!(reply.validate(), Ok(()));
}

#[test]
fn page_windows() {
    assert_eq!(PAGE_LIMIT, 100);
    assert_eq!(page_window(1), Some((1, 0)));
    assert_eq!(page_window(0), Some((1, 0)));
    assert_eq!(page_window(-3), Some((1, 0)));
    assert_eq!(page_window(i64::MIN), Some((1, 0)));
    assert_eq!(page_window(2), Some((2, 100)));
    assert_eq!(page_window(11), Some((11, 1000)));
    assert_eq!(page_window(92233720368547759), Some((92233720368547759, 9223372036854775800)));
    assert_eq!(page_window(92233720368547760), None);
    assert_eq!(page_window(i64::MAX), None);
}

#[test]
fn notices() {
    assert_eq!(joined_notice("alice"), "alice joined the chat");
    assert_eq!(left_notice("alice"), "alice left the chat");
    assert_eq!(joined_notice(""), " joined the chat");
}

#[test]
fn test_check_available_both_fields_none() {
    let params = CheckParams { email: None, nickname: None };
    let result = check_available(params);
    match result {
        Err(refusal) => {
            assert_eq!(refusal.status_code(), 400);
            assert_eq!(refusal, CheckRefusal::EmptyBody);
            assert_eq!(refusal.message(), "body can't be empty");
        }
        Ok(_) => panic!("a check without an address and a nickname was let through"),
    }
}

#[test]
fn check_needs_both_fields() {
    let only_email = CheckParams { email: Some("test@example.com".to_string()), nickname: None };
    assert_eq!(check_available(only_email), Err(CheckRefusal::NicknameRequired));
    assert_eq!(CheckRefusal::NicknameRequired.message(), "Nickname is required");
    let only_nickname = CheckParams { email: None, nickname: Some("nick".to_string()) };
    assert_eq!(check_available(only_nickname), Err(CheckRefusal::EmailRequired));
    assert_eq!(CheckRefusal::EmailRequired.message(), "Email is required");
    assert_eq!(CheckRefusal::EmailRequired.status_code(), 400);
    let both = CheckParams {
        email: Some("test@example.com".to_string()),
        nickname: Some("nick".to_string()),
    };
    assert_eq!(check_available(both), Ok(("test@example.com".to_string(), "nick".to_string())));
}

#[test]
fn availability_answers() {
    let (status, free) = availability_answer(false);
    assert_eq!(status, 200);
    assert!(free.success);
    assert_eq!(free.msg, "user not found");
    assert_eq!(free.data, None);
    let (status, taken) = availability_answer(true);
    assert_eq!(status, 200);
    assert!(!taken.success);
    assert_eq!(taken.msg, "user already exist");
    assert_eq!(taken.data, None);
}

#[test]
fn tag_patterns() {
    assert_eq!(get_tag("@alice"), Some("%alice%".to_string()));
    assert_eq!(get_tag("@ alice "), Some("%alice%".to_string()));
    assert_eq!(get_tag("@"), Some("%%".to_string()));
    assert_eq!(get_tag("@@x"), Some("%@x%".to_string()));
    assert_eq!(get_tag("@a b"), Some("%a b%".to_string()));
    assert_eq!(get_tag("@\u{e9}t\u{e9}\u{a0}"), Some("%\u{e9}t\u{e9}%".to_string()));
    assert_eq!(get_tag("alice"), None);
    assert_eq!(get_tag(" @alice"), None);
    assert_eq!(get_tag(""), None);
}

#[test]
fn registration_settles_the_avatar() {
    let named = register_user(UserRegistration {
        nickname: "alice".to_string(),
        email: "alice@example.com".to_string(),
        password: "secret".to_string(),
        avatar: Some("https://example.com/a.png".to_string()),
    })
    .unwrap();
    assert_eq!(named.avatar, "https://example.com/a.png");
    assert_eq!(named.email, "alice@example.com");
    assert_eq!(named.nickname, "alice");
    let default = register_user(UserRegistration {
        nickname: "bob".to_string(),
        email: "bob@example.com".to_string(),
        password: "secret".to_string(),
        avatar: None,
    })
    .unwrap();
    assert_eq!(default.avatar, "https://api.dicebear.com/9.x/identicon/svg?seed=bob");
}

#[test]
fn registration_without_a_hash_is_refused() {
    let params = UserRegistration {
        nickname: "alice".to_string(),
        email: "alice@example.com".to_string(),
        password: "secret".to_string(),
        avatar: None,
    };
    assert_eq!(registration(params.clone(), None).unwrap_err(), (500, "Failed to hash password"));
    let user = registration(params, Some("$hash".to_string())).unwrap();
    assert_eq!(user.password_hash, "$hash");
    assert_eq!(user.email, "alice@example.com");
    assert_eq!(user.nickname, "alice");
    assert_eq!(user.avatar, "https://api.dicebear.com/9.x/identicon/svg?seed=alice");
}

#[test]
fn registration_hashes_the_password() {
    let user = register_user(UserRegistration {
        nickname: "alice".to_string(),
        email: "alice@example.com".to_string(),
        password: "secret".to_string(),
        avatar: None,
    })
    .unwrap();
    assert_ne!(user.password_hash, "secret");
    assert!(user.password_hash.starts_with("$argon2id$"));
    let again = register_user(UserRegistration {
        nickname: "alice".to_string(),
        email: "alice@example.com".to_string(),
        password: "secret".to_string(),
        avatar: None,
    })
    .unwrap();
    assert_ne!(user.password_hash, again.password_hash);
}
