use chat_auth::compose::{ComposeMessage, ComposeRoom, ComposeService, ComposeUser};

#[test]
fn test_add_user() {
    let mut service = ComposeService::new();
    let user = service.add_user("test_user".to_string(), "test@example.com".to_string()).unwrap();

    assert_eq!(user.username, "test_user");
    assert_eq!(user.email, "test@example.com");
    assert!(!user.id.is_empty());
}

#[test]
fn test_duplicate_user() {
    let mut service = ComposeService::new();
    service.add_user("test_user".to_string(), "test@example.com".to_string()).unwrap();

    let result = service.add_user("test_user2".to_string(), "test@example.com".to_string());
    assert!(result.is_err());
}

#[test]
fn test_create_room() {
    let mut service = ComposeService::new();
    let user = service.add_user("test_user".to_string(), "test@example.com".to_string()).unwrap();
    let room = service.create_room("test_room".to_string(), user.id.clone()).unwrap();

    assert_eq!(room.name, "test_room");
    assert_eq!(room.participants, vec![user.id]);
}

#[test]
fn test_join_room() {
    let mut service = ComposeService::new();
    let user1 = service.add_user("user1".to_string(), "user1@example.com".to_string()).unwrap();
    let user2 = service.add_user("user2".to_string(), "user2@example.com".to_string()).unwrap();

    let room = service.create_room("test_room".to_string(), user1.id.clone()).unwrap();
    service.join_room(&room.id, &user2.id).unwrap();

    let participants = service.get_room_participants(&room.id).unwrap();
    assert_eq!(participants.len(), 2);
}

#[test]
fn test_leave_room() {
    let mut service = ComposeService::new();
    let user1 = service.add_user("user1".to_string(), "user1@example.com".to_string()).unwrap();
    let user2 = service.add_user("user2".to_string(), "user2@example.com".to_string()).unwrap();

    let room = service.create_room("test_room".to_string(), user1.id.clone()).unwrap();
    service.join_room(&room.id, &user2.id).unwrap();
    service.leave_room(&room.id, &user2.id).unwrap();

    let participants = service.get_room_participants(&room.id).unwrap();
    assert_eq!(participants.len(), 1);
}

#[test]
fn test_send_message() {
    let mut service = ComposeService::new();
    let user = service.add_user("test_user".to_string(), "test@example.com".to_string()).unwrap();
    let room = service.create_room("test_room".to_string(), user.id.clone()).unwrap();

    let message = service.send_message(&room.id, &user.id, "Hello World").unwrap();

    assert_eq!(message.content, "Hello World");
    assert_eq!(message.room_id, room.id);
    assert_eq!(message.user_id, user.id);
}

#[test]
fn test_get_room_messages() {
    let mut service = ComposeService::new();
    let user = service.add_user("test_user".to_string(), "test@example.com".to_string()).unwrap();
    let room = service.create_room("test_room".to_string(), user.id.clone()).unwrap();

    service.send_message(&room.id, &user.id, "Hello").unwrap();
    service.send_message(&room.id, &user.id, "World").unwrap();

    let messages = service.get_room_messages(&room.id);
    assert_eq!(messages.len(), 2);
    assert_eq!(messages[0].content, "Hello");
    assert_eq!(messages[1].content, "World");
}

#[test]
fn test_get_user_rooms() {
    let mut service = ComposeService::new();
    let user1 = service.add_user("user1".to_string(), "user1@example.com".to_string()).unwrap();
    let user2 = service.add_user("user2".to_string(), "user2@example.com".to_string()).unwrap();

    let _room1 = service.create_room("room1".to_string(), user1.id.clone()).unwrap();
    let room2 = service.create_room("room2".to_string(), user1.id.clone()).unwrap();

    service.join_room(&room2.id, &user2.id).unwrap();

    let user1_rooms = service.get_user_rooms(&user1.id);
    assert_eq!(user1_rooms.len(), 2);

    let user2_rooms = service.get_user_rooms(&user2.id);
    assert_eq!(user2_rooms.len(), 1);
}

#[test]
fn test_delete_room() {
    let mut service = ComposeService::new();
    let user = service.add_user("test_user".to_string(), "test@example.com".to_string()).unwrap();
    let room = service.create_room("test_room".to_string(), user.id.clone()).unwrap();

    service.delete_room(&room.id).unwrap();

    let room_exists = service.rooms().iter().any(|r| r.id == room.id);
    assert!(!room_exists);
}

#[test]
fn test_compose_message_creation() {
    let message = ComposeMessage {
        id: "test-id".to_string(),
        room_id: "room-123".to_string(),
        user_id: "user-123".to_string(),
        content: "Hello, World!".to_string(),
        timestamp: chrono::Utc::now().timestamp(),
        metadata: std::collections::HashMap::new(),
    };

    assert_eq!(message.room_id, "room-123");
    assert_eq!(message.user_id, "user-123");
    assert_eq!(message.content, "Hello, World!");
}

#[test]
fn test_compose_room_creation() {
    let room = ComposeRoom {
        id: "room-123".to_string(),
        name: "Test Room".to_string(),
        created_at: chrono::Utc::now().timestamp(),
        participants: vec!["user-123".to_string()],
        metadata: std::collections::HashMap::new(),
    };

    assert_eq!(room.name, "Test Room");
    assert_eq!(room.participants.len(), 1);
    assert_eq!(room.participants[0], "user-123");
}

#[test]
fn test_compose_user_creation() {
    let user = ComposeUser {
        id: "user-123".to_string(),
        username: "testuser".to_string(),
        email: "test@example.com".to_string(),
        created_at: chrono::Utc::now().timestamp(),
        metadata: std::collections::HashMap::new(),
    };

    assert_eq!(user.username, "testuser");
    assert_eq!(user.email, "test@example.com");
}

#[test]
fn test_compose_service_integration() {
    let mut service = ComposeService::new();

    // Add a user
    let user1 = service
        .add_user("alice".to_string(), "alice@example.com".to_string())
        .expect("Failed to add user");

    let user2 = service
        .add_user("bob".to_string(), "bob@example.com".to_string())
        .expect("Failed to add user");

    // Create a room
    let room = service
        .create_room("General Chat".to_string(), user1.id.clone())
        .expect("Failed to create room");

    // Bob joins the room
    service.join_room(&room.id, &user2.id).expect("Failed to join room");

    // Alice sends a message
    let message = service
        .send_message(&room.id, &user1.id, "Hello everyone!")
        .expect("Failed to send message");

    assert_eq!(message.content, "Hello everyone!");
    assert_eq!(message.room_id, room.id);
    assert_eq!(message.user_id, user1.id);

    // Bob sends a message
    let _bob_message = service
        .send_message(&room.id, &user2.id, "Hi Alice!")
        .expect("Failed to send message");

    // Get all messages in the room
    let messages = service.get_room_messages(&room.id);
    assert_eq!(messages.len(), 2);

    // Get Alice's rooms
    let alice_rooms = service.get_user_rooms(&user1.id);
    assert_eq!(alice_rooms.len(), 1);

    // Get Bob's rooms
    let bob_rooms = service.get_user_rooms(&user2.id);
    assert_eq!(bob_rooms.len(), 1);

    // Bob leaves the room
    service.leave_room(&room.id, &user2.id).expect("Failed to leave room");

    // Get participants after Bob leaves
    let participants = service
        .get_room_participants(&room.id)
        .expect("Failed to get participants");
    assert_eq!(participants.len(), 1);
    assert_eq!(participants[0], user1.id);

    // Delete the room
    service.delete_room(&room.id).expect("Failed to delete room");
}

#[test]
fn test_compose_error_handling() {
    let mut service = ComposeService::new();

    // Try to create room with non-existent user
    let result = service.create_room("Test Room".to_string(), "non-existent-user".to_string());
    assert!(result.is_err());

    // Try to join non-existent room
    let user = service
        .add_user("test".to_string(), "test@example.com".to_string())
        .expect("Failed to add user");
    let result = service.join_room("non-existent-room", &user.id);
    assert!(result.is_err());

    // Try to send message as user not in room
    let room = service
        .create_room("Test Room".to_string(), user.id.clone())
        .expect("Failed to create room");
    let result = service.send_message(&room.id, "different-user", "Hello");
    assert!(result.is_err());
}

#[test]
fn errors_have_their_words() {
    let mut service = ComposeService::new();
    let user = service.add_user("a".to_string(), "a@example.com".to_string()).unwrap();
    assert_eq!(
        service.add_user("b".to_string(), "a@example.com".to_string()).unwrap_err(),
        "User with this email already exists"
    );
    assert_eq!(
        service.create_room("r".to_string(), "nobody".to_string()).unwrap_err(),
        "Creator user not found"
    );
    let room = service.create_room("r".to_string(), user.id.clone()).unwrap();
    assert_eq!(service.join_room("none", &user.id).unwrap_err(), "Room not found");
    assert_eq!(service.join_room(&room.id, &user.id).unwrap_err(), "User already in room");
    assert_eq!(service.leave_room("none", &user.id).unwrap_err(), "Room not found");
    assert_eq!(service.leave_room(&room.id, "stranger").unwrap_err(), "User not in room");
    assert_eq!(service.send_message("none", &user.id, "x").unwrap_err(), "Room not found");
    assert_eq!(service.send_message(&room.id, "stranger", "x").unwrap_err(), "User not in room");
    assert_eq!(service.get_room_participants("none").unwrap_err(), "Room not found");
    assert_eq!(service.delete_room("none").unwrap_err(), "Room not found");
}

#[test]
fn a_refused_call_changes_nothing() {
    let mut service = ComposeService::new();
    let user = service.add_user("a".to_string(), "a@example.com".to_string()).unwrap();
    let room = service.create_room("r".to_string(), user.id.clone()).unwrap();
    assert!(service.add_user("b".to_string(), "a@example.com".to_string()).is_err());
    assert!(service.join_room(&room.id, &user.id).is_err());
    assert!(service.send_message(&room.id, "stranger", "x").is_err());
    assert_eq!(service.users().len(), 1);
    assert_eq!(service.rooms().len(), 1);
    assert_eq!(service.messages().len(), 0);
    assert_eq!(service.get_room_participants(&room.id).unwrap(), vec![user.id]);
}

#[test]
fn ids_are_fresh_and_hyphenated() {
    let mut service = ComposeService::new();
    let user = service.add_user("a".to_string(), "a@example.com".to_string()).unwrap();
    let other = service.add_user("b".to_string(), "b@example.com".to_string()).unwrap();
    let room = service.create_room("r".to_string(), user.id.clone()).unwrap();
    let message = service.send_message(&room.id, &user.id, "x").unwrap();
    for id in [&user.id, &other.id, &room.id, &message.id] {
        assert_eq!(id.len(), 36);
        assert_eq!(id.matches('-').count(), 4);
    }
    assert_ne!(user.id, other.id);
    assert_ne!(user.id, room.id);
    assert!(user.metadata.is_empty());
    assert!(room.metadata.is_empty());
    assert!(message.metadata.is_empty());
}

#[test]
fn what_is_kept_is_what_is_returned() {
    let mut service = ComposeService::new();
    let before = chrono::Utc::now().timestamp();
    let user = service.add_user("a".to_string(), "a@example.com".to_string()).unwrap();
    let room = service.create_room("r".to_string(), user.id.clone()).unwrap();
    let message = service.send_message(&room.id, &user.id, "x").unwrap();
    let after = chrono::Utc::now().timestamp();
    let kept_user = &service.users()[0];
    assert_eq!(kept_user.id, user.id);
    assert_eq!(kept_user.username, "a");
    assert_eq!(kept_user.email, "a@example.com");
    assert_eq!(kept_user.created_at, user.created_at);
    assert!(before <= user.created_at && user.created_at <= after);
    let kept_room = &service.rooms()[0];
    assert_eq!(kept_room.id, room.id);
    assert_eq!(kept_room.name, "r");
    assert_eq!(kept_room.created_at, room.created_at);
    assert_eq!(kept_room.participants, room.participants);
    let kept_message = &service.messages()[0];
    assert_eq!(kept_message.id, message.id);
    assert_eq!(kept_message.room_id, room.id);
    assert_eq!(kept_message.user_id, user.id);
    assert_eq!(kept_message.content, "x");
    assert_eq!(kept_message.timestamp, message.timestamp);
}

#[test]
fn participants_keep_their_order() {
    let mut service = ComposeService::new();
    let a = service.add_user("a".to_string(), "a@example.com".to_string()).unwrap();
    let room = service.create_room("r".to_string(), a.id.clone()).unwrap();
    service.join_room(&room.id, "x").unwrap();
    service.join_room(&room.id, "y").unwrap();
    service.join_room(&room.id, "z").unwrap();
    service.leave_room(&room.id, "y").unwrap();
    assert_eq!(
        service.get_room_participants(&room.id).unwrap(),
        vec![a.id.clone(), "x".to_string(), "z".to_string()]
    );
    service.leave_room(&room.id, &a.id).unwrap();
    service.leave_room(&room.id, "x").unwrap();
    service.leave_room(&room.id, "z").unwrap();
    assert_eq!(service.get_room_participants(&room.id).unwrap(), Vec::<String>::new());
    assert_eq!(service.get_user_rooms(&a.id).len(), 0);
}

#[test]
fn messages_are_listed_by_room() {
    let mut service = ComposeService::new();
    let a = service.add_user("a".to_string(), "a@example.com".to_string()).unwrap();
    let first = service.create_room("one".to_string(), a.id.clone()).unwrap();
    let second = service.create_room("two".to_string(), a.id.clone()).unwrap();
    service.send_message(&first.id, &a.id, "1").unwrap();
    service.send_message(&second.id, &a.id, "2").unwrap();
    service.send_message(&first.id, &a.id, "3").unwrap();
    let of_first: Vec<String> =
        service.get_room_messages(&first.id).iter().map(|m| m.content.clone()).collect();
    assert_eq!(of_first, vec!["1".to_string(), "3".to_string()]);
    assert_eq!(service.get_room_messages(&second.id).len(), 1);
    assert_eq!(service.get_room_messages("none").len(), 0);
    service.delete_room(&first.id).unwrap();
    assert_eq!(service.get_room_messages(&first.id).len(), 2);
    assert_eq!(service.rooms().len(), 1);
    assert_eq!(service.rooms()[0].id, second.id);
}
