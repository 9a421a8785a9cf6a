//! An in-memory chat service: users, rooms with their participants, and
//! the messages sent to rooms.
//!
//! Users, rooms and messages are kept in the order in which they were
//! made. An id names the first user or room that carries it.

use crate::clock::unix_now;
use crate::text::same_text;
use std::collections::HashMap;
use vstd::prelude::*;
use vstd::string::StringExecFns;

verus! {

/// A JSON value of the `serde_json` crate. The service carries such values
/// in metadata and never looks into them.
#[verifier::external_type_specification]
#[verifier::external_body]
pub struct ExJsonValue(serde_json::Value);

/// A message sent to a room.
#[derive(Debug, Clone)]
pub struct ComposeMessage {
    pub id: String,
    pub room_id: String,
    pub user_id: String,
    pub content: String,
    /// When the message was sent, in seconds since the Unix epoch.
    pub timestamp: i64,
    pub metadata: HashMap<String, serde_json::Value>,
}

/// A room and the ids of the users in it.
#[derive(Debug, Clone)]
pub struct ComposeRoom {
    pub id: String,
    pub name: String,
    /// When the room was made, in seconds since the Unix epoch.
    pub created_at: i64,
    pub participants: Vec<String>,
    pub metadata: HashMap<String, serde_json::Value>,
}

/// A user of the service.
#[derive(Debug, Clone)]
pub struct ComposeUser {
    pub id: String,
    pub username: String,
    pub email: String,
    /// When the user was added, in seconds since the Unix epoch.
    pub created_at: i64,
    pub metadata: HashMap<String, serde_json::Value>,
}

/// The mathematical value of a message.
pub struct MessageView {
    pub id: Seq<char>,
    pub room_id: Seq<char>,
    pub user_id: Seq<char>,
    pub content: Seq<char>,
    pub timestamp: i64,
    pub metadata: Map<String, serde_json::Value>,
}

/// The mathematical value of a room.
pub struct RoomView {
    pub id: Seq<char>,
    pub name: Seq<char>,
    pub created_at: i64,
    pub participants: Seq<Seq<char>>,
    pub metadata: Map<String, serde_json::Value>,
}

/// The mathematical value of a user.
pub struct UserView {
    pub id: Seq<char>,
    pub username: Seq<char>,
    pub email: Seq<char>,
    pub created_at: i64,
    pub metadata: Map<String, serde_json::Value>,
}

/// The mathematical value of the service.
pub struct ServiceView {
    pub users: Seq<UserView>,
    pub rooms: Seq<RoomView>,
    pub messages: Seq<MessageView>,
}

impl View for ComposeMessage {
    type V = MessageView;

    open spec fn view(&self) -> MessageView {
        MessageView {
            id: self.id@,
            room_id: self.room_id@,
            user_id: self.user_id@,
            content: self.content@,
            timestamp: self.timestamp,
            metadata: self.metadata@,
        }
    }
}

impl View for ComposeRoom {
    type V = RoomView;

    open spec fn view(&self) -> RoomView {
        RoomView {
            id: self.id@,
            name: self.name@,
            created_at: self.created_at,
            participants: names(self.participants@),
            metadata: self.metadata@,
        }
    }
}

impl View for ComposeUser {
    type V = UserView;

    open spec fn view(&self) -> UserView {
        UserView {
            id: self.id@,
            username: self.username@,
            email: self.email@,
            created_at: self.created_at,
            metadata: self.metadata@,
        }
    }
}

/// The texts of a list of strings.
pub open spec fn names(list: Seq<String>) -> Seq<Seq<char>> {
    Seq::new(list.len(), |i: int| list[i]@)
}

/// The values of a list of users.
pub open spec fn user_views(list: Seq<ComposeUser>) -> Seq<UserView> {
    Seq::new(list.len(), |i: int| list[i]@)
}

/// The values of a list of rooms.
pub open spec fn room_views(list: Seq<ComposeRoom>) -> Seq<RoomView> {
    Seq::new(list.len(), |i: int| list[i]@)
}

/// The values of a list of messages.
pub open spec fn message_views(list: Seq<ComposeMessage>) -> Seq<MessageView> {
    Seq::new(list.len(), |i: int| list[i]@)
}

/// The values of a list of borrowed rooms.
pub open spec fn borrowed_room_views(list: Seq<&ComposeRoom>) -> Seq<RoomView> {
    Seq::new(list.len(), |i: int| list[i]@)
}

/// The values of a list of borrowed messages.
pub open spec fn borrowed_message_views(list: Seq<&ComposeMessage>) -> Seq<MessageView> {
    Seq::new(list.len(), |i: int| list[i]@)
}

/// Some user has the e-mail address `email`.
pub open spec fn email_taken(users: Seq<UserView>, email: Seq<char>) -> bool {
    exists|i: int| 0 <= i < users.len() && (#[trigger] users[i]).email == email
}

/// Some user has the id `id`.
pub open spec fn user_known(users: Seq<UserView>, id: Seq<char>) -> bool {
    exists|i: int| 0 <= i < users.len() && (#[trigger] users[i]).id == id
}

/// The position of the first room with the id `id`.
pub open spec fn first_room(rooms: Seq<RoomView>, id: Seq<char>) -> Option<int>
    decreases rooms.len(),
{
    if rooms.len() == 0 {
        None
    } else if rooms[0].id == id {
        Some(0)
    } else {
        match first_room(rooms.drop_first(), id) {
            Some(i) => Some(i + 1),
            None => None,
        }
    }
}

/// The position of the first occurrence of `name` in `list`.
pub open spec fn first_name(list: Seq<Seq<char>>, name: Seq<char>) -> Option<int>
    decreases list.len(),
{
    if list.len() == 0 {
        None
    } else if list[0] == name {
        Some(0)
    } else {
        match first_name(list.drop_first(), name) {
            Some(i) => Some(i + 1),
            None => None,
        }
    }
}

/// `room` with one more participant at the end.
pub open spec fn with_participant(room: RoomView, user_id: Seq<char>) -> RoomView {
    RoomView { participants: room.participants.push(user_id), ..room }
}

/// `room` without the participant at position `at`.
pub open spec fn without_participant(room: RoomView, at: int) -> RoomView {
    RoomView { participants: room.participants.remove(at), ..room }
}

/// `first_room` gives the first position with the id, and `None` exactly
/// where no room has it.
pub proof fn lemma_first_room(rooms: Seq<RoomView>, id: Seq<char>)
    ensures
        match first_room(rooms, id) {
            Some(i) => 0 <= i < rooms.len() && rooms[i].id == id && forall|j: int|
                0 <= j < i ==> (#[trigger] rooms[j]).id != id,
            None => forall|j: int| 0 <= j < rooms.len() ==> (#[trigger] rooms[j]).id != id,
        },
    decreases rooms.len(),
{
    if rooms.len() > 0 && rooms[0].id != id {
        let tail = rooms.drop_first();
        lemma_first_room(tail, id);
        match first_room(tail, id) {
            Some(i) => {
                assert forall|j: int| 0 <= j < i + 1 implies (#[trigger] rooms[j]).id != id by {
                    if j > 0 {
                        assert(rooms[j] == tail[j - 1]);
                    }
                }
            },
            None => {
                assert forall|j: int| 0 <= j < rooms.len() implies (#[trigger] rooms[j]).id
                    != id by {
                    if j > 0 {
                        assert(rooms[j] == tail[j - 1]);
                    }
                }
            },
        }
    }
}

/// A position is the first with the id exactly where `first_room` gives
/// it.
pub proof fn lemma_first_room_is(rooms: Seq<RoomView>, id: Seq<char>, at: int)
    requires
        0 <= at <= rooms.len(),
        forall|j: int| 0 <= j < at ==> (#[trigger] rooms[j]).id != id,
        at < rooms.len() ==> rooms[at].id == id,
    ensures
        first_room(rooms, id) == if at < rooms.len() {
            Some(at)
        } else {
            None
        },
{
    lemma_first_room(rooms, id);
    match first_room(rooms, id) {
        Some(i) => {
            assert(rooms[i].id == id);
            if i < at {
                assert(rooms[i].id != id);
            }
            if at < i {
                assert(rooms[at].id != id);
            }
        },
        None => {
            if at < rooms.len() {
                assert(rooms[at].id != id);
            }
        },
    }
}

/// `first_name` gives the first position of the name, and `None` exactly
/// where the list does not hold it.
pub proof fn lemma_first_name(list: Seq<Seq<char>>, name: Seq<char>)
    ensures
        match first_name(list, name) {
            Some(i) => 0 <= i < list.len() && list[i] == name && forall|j: int|
                0 <= j < i ==> #[trigger] list[j] != name,
            None => !list.contains(name),
        },
        first_name(list, name) is Some <==> list.contains(name),
    decreases list.len(),
{
    if list.len() > 0 && list[0] != name {
        let tail = list.drop_first();
        lemma_first_name(tail, name);
        match first_name(tail, name) {
            Some(i) => {
                assert(list[i + 1] == tail[i]);
                assert forall|j: int| 0 <= j < i + 1 implies #[trigger] list[j] != name by {
                    if j > 0 {
                        assert(list[j] == tail[j - 1]);
                    }
                }
            },
            None => {
                assert forall|j: int| 0 <= j < list.len() implies #[trigger] list[j] != name by {
                    if j > 0 {
                        assert(list[j] == tail[j - 1]);
                        assert(tail.contains(tail[j - 1]));
                    }
                }
            },
        }
    } else if list.len() > 0 {
        assert(list[0] == name);
    }
}

/// A position is the first of the name exactly where `first_name` gives
/// it.
pub proof fn lemma_first_name_is(list: Seq<Seq<char>>, name: Seq<char>, at: int)
    requires
        0 <= at <= list.len(),
        forall|j: int| 0 <= j < at ==> #[trigger] list[j] != name,
        at < list.len() ==> list[at] == name,
    ensures
        first_name(list, name) == if at < list.len() {
            Some(at)
        } else {
            None
        },
{
    lemma_first_name(list, name);
    match first_name(list, name) {
        Some(i) => {
            if i < at {
                assert(list[i] != name);
            }
            if at < i {
                assert(list[at] != name);
            }
        },
        None => {
            if at < list.len() {
                assert(list.contains(list[at]));
            }
        },
    }
}

/// Calls `uuid::Uuid::new_v4` and writes the id out with `to_string`.
///
/// Trusted: the result is a random id in its hyphenated form, which is 36
/// characters long; nothing else is claimed of it. The crate panics where
/// the system gives it no random bytes.
#[verifier::external_body]
fn fresh_id() -> (id: String)
    ensures
        id@.len() == 36,
{
    uuid::Uuid::new_v4().to_string()
}

/// The position of the first occurrence of `name` in `list`.
fn position_of_name(list: &Vec<String>, name: &str) -> (at: Option<usize>)
    ensures
        match at {
            Some(i) => first_name(names(list@), name@) == Some(i as int) && i < list@.len(),
            None => first_name(names(list@), name@) is None,
        },
{
    let mut i: usize = 0;
    while i < list.len()
        invariant
            i <= list@.len(),
            forall|j: int| 0 <= j < i ==> #[trigger] names(list@)[j] != name@,
        decreases list@.len() - i,
    {
        if same_text(list[i].as_str(), name) {
            proof {
                lemma_first_name_is(names(list@), name@, i as int);
            }
            return Some(i);
        }
        i = i + 1;
    }
    proof {
        lemma_first_name_is(names(list@), name@, i as int);
    }
    None
}

/// A copy of a list of strings.
fn copy_names(list: &Vec<String>) -> (copy: Vec<String>)
    ensures
        names(copy@) == names(list@),
{
    let mut copy: Vec<String> = Vec::new();
    let mut i: usize = 0;
    while i < list.len()
        invariant
            i <= list@.len(),
            copy@.len() == i,
            forall|j: int| 0 <= j < i ==> copy@[j]@ == list@[j]@,
        decreases list@.len() - i,
    {
        copy.push(list[i].clone());
        i = i + 1;
    }
    assert(names(copy@) =~= names(list@));
    copy
}

/// The users, rooms and messages of a chat service.
pub struct ComposeService {
    messages: Vec<ComposeMessage>,
    rooms: Vec<ComposeRoom>,
    users: Vec<ComposeUser>,
}

impl View for ComposeService {
    type V = ServiceView;

    closed spec fn view(&self) -> ServiceView {
        ServiceView {
            users: user_views(self.users@),
            rooms: room_views(self.rooms@),
            messages: message_views(self.messages@),
        }
    }
}

impl ComposeService {
    /// A service without users, rooms and messages.
    pub fn new() -> (service: ComposeService)
        ensures
            service@ == (ServiceView {
                users: Seq::<UserView>::empty(),
                rooms: Seq::<RoomView>::empty(),
                messages: Seq::<MessageView>::empty(),
            }),
    {
        let service = ComposeService { messages: Vec::new(), rooms: Vec::new(), users: Vec::new() };
        assert(service@.users =~= Seq::<UserView>::empty());
        assert(service@.rooms =~= Seq::<RoomView>::empty());
        assert(service@.messages =~= Seq::<MessageView>::empty());
        service
    }

    /// The rooms of the service, in the order in which they were made.
    pub fn rooms(&self) -> (rooms: &Vec<ComposeRoom>)
        ensures
            room_views(rooms@) == self@.rooms,
    {
        &self.rooms
    }

    /// The users of the service, in the order in which they were added.
    pub fn users(&self) -> (users: &Vec<ComposeUser>)
        ensures
            user_views(users@) == self@.users,
    {
        &self.users
    }

    /// The messages of the service, in the order in which they were sent.
    pub fn messages(&self) -> (messages: &Vec<ComposeMessage>)
        ensures
            message_views(messages@) == self@.messages,
    {
        &self.messages
    }

    /// Tells whether some user has the e-mail address `email`.
    fn has_email(&self, email: &str) -> (taken: bool)
        ensures
            taken == email_taken(self@.users, email@),
    {
        let mut i: usize = 0;
        while i < self.users.len()
            invariant
                i <= self.users@.len(),
                forall|j: int| 0 <= j < i ==> (#[trigger] self@.users[j]).email != email@,
            decreases self.users@.len() - i,
        {
            if same_text(self.users[i].email.as_str(), email) {
                assert(self@.users[i as int].email == email@);
                return true;
            }
            i = i + 1;
        }
        false
    }

    /// Tells whether some user has the id `id`.
    fn has_user(&self, id: &str) -> (known: bool)
        ensures
            known == user_known(self@.users, id@),
    {
        let mut i: usize = 0;
        while i < self.users.len()
            invariant
                i <= self.users@.len(),
                forall|j: int| 0 <= j < i ==> (#[trigger] self@.users[j]).id != id@,
            decreases self.users@.len() - i,
        {
            if same_text(self.users[i].id.as_str(), id) {
                assert(self@.users[i as int].id == id@);
                return true;
            }
            i = i + 1;
        }
        false
    }

    /// The position of the first room with the id `id`.
    fn room_position(&self, id: &str) -> (at: Option<usize>)
        ensures
            match at {
                Some(i) => first_room(self@.rooms, id@) == Some(i as int) && i < self@.rooms.len(),
                None => first_room(self@.rooms, id@) is None,
            },
    {
        let mut i: usize = 0;
        while i < self.rooms.len()
            invariant
                i <= self.rooms@.len(),
                forall|j: int| 0 <= j < i ==> (#[trigger] self@.rooms[j]).id != id@,
            decreases self.rooms@.len() - i,
        {
            if same_text(self.rooms[i].id.as_str(), id) {
                proof {
                    lemma_first_room_is(self@.rooms, id@, i as int);
                }
                return Some(i);
            }
            i = i + 1;
        }
        proof {
            lemma_first_room_is(self@.rooms, id@, i as int);
        }
        None
    }

    /// Adds a user with a fresh id. An e-mail address can be used once: a
    /// second user with the same address is refused and nothing changes.
    pub fn add_user(&mut self, username: String, email: String) -> (r: Result<ComposeUser, String>)
        ensures
            match r {
                Ok(user) => {
                    &&& !email_taken(old(self)@.users, email@)
                    &&& user.username@ == username@
                    &&& user.email@ == email@
                    &&& user.id@.len() == 36
                    &&& user.metadata@ == Map::<String, serde_json::Value>::empty()
                    &&& final(self)@ == ServiceView {
                        users: old(self)@.users.push(user@),
                        ..old(self)@
                    }
                },
                Err(e) => {
                    &&& email_taken(old(self)@.users, email@)
                    &&& e@ == "User with this email already exists"@
                    &&& final(self)@ == old(self)@
                },
            },
    {
        if self.has_email(email.as_str()) {
            return Err(String::from_str("User with this email already exists"));
        }
        let user = ComposeUser {
            id: fresh_id(),
            username,
            email,
            created_at: unix_now(),
            metadata: HashMap::new(),
        };
        let kept = ComposeUser {
            id: user.id.clone(),
            username: user.username.clone(),
            email: user.email.clone(),
            created_at: user.created_at,
            metadata: HashMap::new(),
        };
        self.users.push(kept);
        assert(final(self)@.users =~= old(self)@.users.push(user@));
        Ok(user)
    }

    /// Makes a room with a fresh id whose only participant is its creator.
    /// A creator that is no user of the service is refused.
    pub fn create_room(&mut self, name: String, creator_id: String) -> (r: Result<
        ComposeRoom,
        String,
    >)
        ensures
            match r {
                Ok(room) => {
                    &&& user_known(old(self)@.users, creator_id@)
                    &&& room@.name == name@
                    &&& room@.participants == seq![creator_id@]
                    &&& room.id@.len() == 36
                    &&& room.metadata@ == Map::<String, serde_json::Value>::empty()
                    &&& final(self)@ == ServiceView {
                        rooms: old(self)@.rooms.push(room@),
                        ..old(self)@
                    }
                },
                Err(e) => {
                    &&& !user_known(old(self)@.users, creator_id@)
                    &&& e@ == "Creator user not found"@
                    &&& final(self)@ == old(self)@
                },
            },
    {
        if !self.has_user(creator_id.as_str()) {
            return Err(String::from_str("Creator user not found"));
        }
        let mut members: Vec<String> = Vec::new();
        members.push(creator_id.clone());
        let mut participants: Vec<String> = Vec::new();
        participants.push(creator_id);
        let room = ComposeRoom {
            id: fresh_id(),
            name,
            created_at: unix_now(),
            participants,
            metadata: HashMap::new(),
        };
        let kept = ComposeRoom {
            id: room.id.clone(),
            name: room.name.clone(),
            created_at: room.created_at,
            participants: members,
            metadata: HashMap::new(),
        };
        assert(room@.participants =~= seq![creator_id@]);
        assert(kept@.participants =~= seq![creator_id@]);
        self.rooms.push(kept);
        assert(final(self)@.rooms =~= old(self)@.rooms.push(room@));
        Ok(room)
    }

    /// Adds a user to the first room with the id `room_id`. A user joins a
    /// room once.
    pub fn join_room(&mut self, room_id: &str, user_id: &str) -> (r: Result<(), String>)
        ensures
            match first_room(old(self)@.rooms, room_id@) {
                None => {
                    &&& r matches Err(e) && e@ == "Room not found"@
                    &&& final(self)@ == old(self)@
                },
                Some(at) => if old(self)@.rooms[at].participants.contains(user_id@) {
                    &&& r matches Err(e) && e@ == "User already in room"@
                    &&& final(self)@ == old(self)@
                } else {
                    &&& r is Ok
                    &&& final(self)@ == ServiceView {
                        rooms: old(self)@.rooms.update(
                            at,
                            with_participant(old(self)@.rooms[at], user_id@),
                        ),
                        ..old(self)@
                    }
                },
            },
    {
        let at = match self.room_position(room_id) {
            Some(i) => i,
            None => {
                return Err(String::from_str("Room not found"));
            },
        };
        proof {
            lemma_first_name(old(self)@.rooms[at as int].participants, user_id@);
        }
        if position_of_name(&self.rooms[at].participants, user_id).is_some() {
            return Err(String::from_str("User already in room"));
        }
        let mut room = self.rooms.remove(at);
        room.participants.push(String::from_str(user_id));
        assert(room@ == with_participant(old(self)@.rooms[at as int], user_id@)) by {
            assert(room@.participants =~= old(self)@.rooms[at as int].participants.push(user_id@));
        }
        self.rooms.insert(at, room);
        assert(final(self)@.rooms =~= old(self)@.rooms.update(
            at as int,
            with_participant(old(self)@.rooms[at as int], user_id@),
        ));
        Ok(())
    }

    /// Takes a user out of the first room with the id `room_id`.
    pub fn leave_room(&mut self, room_id: &str, user_id: &str) -> (r: Result<(), String>)
        ensures
            match first_room(old(self)@.rooms, room_id@) {
                None => {
                    &&& r matches Err(e) && e@ == "Room not found"@
                    &&& final(self)@ == old(self)@
                },
                Some(at) => match first_name(old(self)@.rooms[at].participants, user_id@) {
                    None => {
                        &&& r matches Err(e) && e@ == "User not in room"@
                        &&& final(self)@ == old(self)@
                    },
                    Some(seat) => {
                        &&& r is Ok
                        &&& final(self)@ == ServiceView {
                            rooms: old(self)@.rooms.update(
                                at,
                                without_participant(old(self)@.rooms[at], seat),
                            ),
                            ..old(self)@
                        }
                    },
                },
            },
    {
        let at = match self.room_position(room_id) {
            Some(i) => i,
            None => {
                return Err(String::from_str("Room not found"));
            },
        };
        let seat = match position_of_name(&self.rooms[at].participants, user_id) {
            Some(i) => i,
            None => {
                return Err(String::from_str("User not in room"));
            },
        };
        let mut room = self.rooms.remove(at);
        room.participants.remove(seat);
        assert(room@ == without_participant(old(self)@.rooms[at as int], seat as int)) by {
            assert(room@.participants =~= old(self)@.rooms[at as int].participants.remove(
                seat as int,
            ));
        }
        self.rooms.insert(at, room);
        assert(final(self)@.rooms =~= old(self)@.rooms.update(
            at as int,
            without_participant(old(self)@.rooms[at as int], seat as int),
        ));
        Ok(())
    }

    /// Sends a message to the first room with the id `room_id`. Only a
    /// participant of the room can send to it.
    pub fn send_message(&mut self, room_id: &str, user_id: &str, content: &str) -> (r: Result<
        ComposeMessage,
        String,
    >)
        ensures
            match first_room(old(self)@.rooms, room_id@) {
                None => {
                    &&& r matches Err(e) && e@ == "Room not found"@
                    &&& final(self)@ == old(self)@
                },
                Some(at) => if !old(self)@.rooms[at].participants.contains(user_id@) {
                    &&& r matches Err(e) && e@ == "User not in room"@
                    &&& final(self)@ == old(self)@
                } else {
                    &&& r matches Ok(message)
                    &&& message.room_id@ == room_id@
                    &&& message.user_id@ == user_id@
                    &&& message.content@ == content@
                    &&& message.id@.len() == 36
                    &&& message.metadata@ == Map::<String, serde_json::Value>::empty()
                    &&& final(self)@ == ServiceView {
                        messages: old(self)@.messages.push(message@),
                        ..old(self)@
                    }
                },
            },
    {
        let at = match self.room_position(room_id) {
            Some(i) => i,
            None => {
                return Err(String::from_str("Room not found"));
            },
        };
        proof {
            lemma_first_name(old(self)@.rooms[at as int].participants, user_id@);
        }
        if position_of_name(&self.rooms[at].participants, user_id).is_none() {
            return Err(String::from_str("User not in room"));
        }
        let message = ComposeMessage {
            id: fresh_id(),
            room_id: String::from_str(room_id),
            user_id: String::from_str(user_id),
            content: String::from_str(content),
            timestamp: unix_now(),
            metadata: HashMap::new(),
        };
        let kept = ComposeMessage {
            id: message.id.clone(),
            room_id: message.room_id.clone(),
            user_id: message.user_id.clone(),
            content: message.content.clone(),
            timestamp: message.timestamp,
            metadata: HashMap::new(),
        };
        self.messages.push(kept);
        assert(final(self)@.messages =~= old(self)@.messages.push(message@));
        Ok(message)
    }

    /// The messages sent to the rooms with the id `room_id`, in the order
    /// in which they were sent.
    pub fn get_room_messages(&self, room_id: &str) -> (found: Vec<&ComposeMessage>)
        ensures
            borrowed_message_views(found@) == self@.messages.filter(
                |m: MessageView| m.room_id == room_id@,
            ),
    {
        let ghost wanted = |m: MessageView| m.room_id == room_id@;
        let ghost all = self@.messages;
        let mut found: Vec<&ComposeMessage> = Vec::new();
        let mut i: usize = 0;
        proof {
            reveal(Seq::filter);
            assert(all.take(0).filter(wanted) =~= Seq::<MessageView>::empty());
            assert(borrowed_message_views(found@) =~= Seq::<MessageView>::empty());
        }
        while i < self.messages.len()
            invariant
                all == self@.messages,
                wanted == |m: MessageView| m.room_id == room_id@,
                i <= self.messages@.len(),
                borrowed_message_views(found@) == all.take(i as int).filter(wanted),
            decreases self.messages@.len() - i,
        {
            let ghost before = borrowed_message_views(found@);
            let message = &self.messages[i];
            proof {
                reveal(Seq::filter);
                assert(all.take(i + 1).drop_last() == all.take(i as int));
                assert(all.take(i + 1).last() == message@);
            }
            if same_text(message.room_id.as_str(), room_id) {
                found.push(message);
                assert(borrowed_message_views(found@) =~= before.push(message@));
            }
            i = i + 1;
        }
        assert(all.take(all.len() as int) == all);
        found
    }

    /// The rooms that `user_id` is a participant of, in the order in which
    /// they were made.
    pub fn get_user_rooms(&self, user_id: &str) -> (found: Vec<&ComposeRoom>)
        ensures
            borrowed_room_views(found@) == self@.rooms.filter(
                |room: RoomView| room.participants.contains(user_id@),
            ),
    {
        let ghost wanted = |room: RoomView| room.participants.contains(user_id@);
        let ghost all = self@.rooms;
        let mut found: Vec<&ComposeRoom> = Vec::new();
        let mut i: usize = 0;
        proof {
            reveal(Seq::filter);
            assert(all.take(0).filter(wanted) =~= Seq::<RoomView>::empty());
            assert(borrowed_room_views(found@) =~= Seq::<RoomView>::empty());
        }
        while i < self.rooms.len()
            invariant
                all == self@.rooms,
                wanted == |room: RoomView| room.participants.contains(user_id@),
                i <= self.rooms@.len(),
                borrowed_room_views(found@) == all.take(i as int).filter(wanted),
            decreases self.rooms@.len() - i,
        {
            let ghost before = borrowed_room_views(found@);
            let room = &self.rooms[i];
            proof {
                reveal(Seq::filter);
                assert(all.take(i + 1).drop_last() == all.take(i as int));
                assert(all.take(i + 1).last() == room@);
                lemma_first_name(room@.participants, user_id@);
            }
            if position_of_name(&room.participants, user_id).is_some() {
                found.push(room);
                assert(borrowed_room_views(found@) =~= before.push(room@));
            }
            i = i + 1;
        }
        assert(all.take(all.len() as int) == all);
        found
    }

    /// The ids of the participants of the first room with the id
    /// `room_id`.
    pub fn get_room_participants(&self, room_id: &str) -> (r: Result<Vec<String>, String>)
        ensures
            match first_room(self@.rooms, room_id@) {
                None => r matches Err(e) && e@ == "Room not found"@,
                Some(at) => r matches Ok(list) && names(list@) == self@.rooms[at].participants,
            },
    {
        match self.room_position(room_id) {
            Some(at) => Ok(copy_names(&self.rooms[at].participants)),
            None => Err(String::from_str("Room not found")),
        }
    }

    /// Takes the first room with the id `room_id` out of the service.
    pub fn delete_room(&mut self, room_id: &str) -> (r: Result<(), String>)
        ensures
            match first_room(old(self)@.rooms, room_id@) {
                None => {
                    &&& r matches Err(e) && e@ == "Room not found"@
                    &&& final(self)@ == old(self)@
                },
                Some(at) => {
                    &&& r is Ok
                    &&& final(self)@ == ServiceView {
                        rooms: old(self)@.rooms.remove(at),
                        ..old(self)@
                    }
                },
            },
    {
        match self.room_position(room_id) {
            Some(at) => {
                self.rooms.remove(at);
                assert(final(self)@.rooms =~= old(self)@.rooms.remove(at as int));
                Ok(())
            },
            None => Err(String::from_str("Room not found")),
        }
    }
}

} // verus!
