//! The refresh store: for each subject, the one refresh token the server
//! recognizes, if any.
//!
//! A subject has a single slot. Storing a token replaces what the slot
//! held, so the moment a new refresh token is stored the one before it is
//! no longer recognized.

use crate::text::same_text;
use vstd::prelude::*;
use vstd::string::StringExecFns;

verus! {

/// What `rotate` did.
#[derive(Debug, Clone, Copy, PartialEq, Eq)]
pub enum RotationOutcome {
    /// The subject's slot holds the new token.
    Updated,
    /// The store knows no such subject; nothing changed.
    SubjectNotFound,
}

/// What `invalidate` did.
#[derive(Debug, Clone, Copy, PartialEq, Eq)]
pub enum InvalidationOutcome {
    /// The subject's slot held the presented token and is empty now.
    Invalidated,
    /// The subject's slot did not hold the presented token; nothing
    /// changed.
    NoMatchOrAlreadyInvalid,
}

impl RotationOutcome {
    /// What an update of the subject's row in a storage means, given the
    /// number of rows it changed: a subject that exists has one row.
    pub fn from_rows_affected(rows: u64) -> (outcome: RotationOutcome)
        ensures
            outcome == if rows > 0 {
                RotationOutcome::Updated
            } else {
                RotationOutcome::SubjectNotFound
            },
    {
        if rows > 0 {
            RotationOutcome::Updated
        } else {
            RotationOutcome::SubjectNotFound
        }
    }
}

impl InvalidationOutcome {
    /// What an update that empties the subject's row where it holds the
    /// presented token means, given the number of rows it changed.
    pub fn from_rows_affected(rows: u64) -> (outcome: InvalidationOutcome)
        ensures
            outcome == if rows > 0 {
                InvalidationOutcome::Invalidated
            } else {
                InvalidationOutcome::NoMatchOrAlreadyInvalid
            },
    {
        if rows > 0 {
            InvalidationOutcome::Invalidated
        } else {
            InvalidationOutcome::NoMatchOrAlreadyInvalid
        }
    }
}

/// One subject and its slot.
struct Slot {
    subject_id: i64,
    stored_refresh_token: Option<String>,
}

/// The mathematical value of a slot.
pub struct SlotView {
    pub subject_id: i64,
    pub stored_refresh_token: Option<Seq<char>>,
}

impl View for Slot {
    type V = SlotView;

    closed spec fn view(&self) -> SlotView {
        SlotView {
            subject_id: self.subject_id,
            stored_refresh_token: match self.stored_refresh_token {
                Some(token) => Some(token@),
                None => None,
            },
        }
    }
}

/// The subjects known to the server, each with its slot, in the order in
/// which they were added. No subject occurs twice.
pub struct RefreshStore {
    slots: Vec<Slot>,
}

impl View for RefreshStore {
    type V = Seq<SlotView>;

    closed spec fn view(&self) -> Seq<SlotView> {
        Seq::new(self.slots@.len(), |i: int| self.slots@[i]@)
    }
}

/// No subject has two slots.
pub open spec fn distinct_subjects(slots: Seq<SlotView>) -> bool {
    forall|i: int, j: int|
        0 <= i < j < slots.len() ==> (#[trigger] slots[i]).subject_id != (
        #[trigger] slots[j]).subject_id
}

/// The store knows `subject_id`.
pub open spec fn has_subject(slots: Seq<SlotView>, subject_id: i64) -> bool {
    exists|i: int| 0 <= i < slots.len() && (#[trigger] slots[i]).subject_id == subject_id
}

/// The slot of `subject_id` holds `token`.
pub open spec fn holds(slots: Seq<SlotView>, subject_id: i64, token: Seq<char>) -> bool {
    exists|i: int|
        0 <= i < slots.len() && (#[trigger] slots[i]).subject_id == subject_id
            && slots[i].stored_refresh_token == Some(token)
}

/// The first subject, in the order of the store, whose slot holds `token`.
pub open spec fn holder(slots: Seq<SlotView>, token: Seq<char>) -> Option<i64>
    decreases slots.len(),
{
    if slots.len() == 0 {
        None
    } else if slots[0].stored_refresh_token == Some(token) {
        Some(slots[0].subject_id)
    } else {
        holder(slots.drop_first(), token)
    }
}

/// The store after `token` was put into the slot of `subject_id`.
pub open spec fn rotated(slots: Seq<SlotView>, subject_id: i64, token: Seq<char>) -> Seq<
    SlotView,
> {
    Seq::new(
        slots.len(),
        |i: int|
            if slots[i].subject_id == subject_id {
                SlotView { subject_id, stored_refresh_token: Some(token) }
            } else {
                slots[i]
            },
    )
}

/// The store after the slot of `subject_id` was emptied.
pub open spec fn cleared(slots: Seq<SlotView>, subject_id: i64) -> Seq<SlotView> {
    Seq::new(
        slots.len(),
        |i: int|
            if slots[i].subject_id == subject_id {
                SlotView { subject_id, stored_refresh_token: None }
            } else {
                slots[i]
            },
    )
}

impl RefreshStore {
    /// The store is in order: no subject has two slots. A new store is,
    /// and every operation keeps it so.
    pub open spec fn well_formed(&self) -> bool {
        distinct_subjects(self@)
    }

    /// A store that knows no subject.
    pub fn new() -> (store: RefreshStore)
        ensures
            store@ == Seq::<SlotView>::empty(),
            store.well_formed(),
    {
        let store = RefreshStore { slots: Vec::new() };
        assert(store@ =~= Seq::<SlotView>::empty());
        store
    }

    /// Where the slot of `subject_id` stands.
    fn position(&self, subject_id: i64) -> (at: Option<usize>)
        ensures
            match at {
                Some(i) => i < self@.len() && self@[i as int].subject_id == subject_id,
                None => !has_subject(self@, subject_id),
            },
    {
        let mut i: usize = 0;
        while i < self.slots.len()
            invariant
                i <= self.slots@.len(),
                forall|j: int| 0 <= j < i ==> (#[trigger] self@[j]).subject_id != subject_id,
            decreases self.slots@.len() - i,
        {
            if self.slots[i].subject_id == subject_id {
                return Some(i);
            }
            i = i + 1;
        }
        None
    }

    /// Makes `subject_id` known to the store, with an empty slot. Returns
    /// `false`, and changes nothing, where the subject is known already.
    pub fn add_subject(&mut self, subject_id: i64) -> (added: bool)
        requires
            old(self).well_formed(),
        ensures
            final(self).well_formed(),
            added == !has_subject(old(self)@, subject_id),
            final(self)@ == if added {
                old(self)@.push(SlotView { subject_id, stored_refresh_token: None })
            } else {
                old(self)@
            },
    {
        match self.position(subject_id) {
            Some(_) => false,
            None => {
                self.slots.push(Slot { subject_id, stored_refresh_token: None });
                assert(self@ =~= old(self)@.push(
                    SlotView { subject_id, stored_refresh_token: None },
                ));
                true
            },
        }
    }

    /// Puts `new_refresh_token` into the slot of `subject_id`, whatever the
    /// slot held: the last write wins.
    pub fn rotate(&mut self, subject_id: i64, new_refresh_token: &str) -> (outcome: RotationOutcome)
        requires
            old(self).well_formed(),
        ensures
            final(self).well_formed(),
            outcome == if has_subject(old(self)@, subject_id) {
                RotationOutcome::Updated
            } else {
                RotationOutcome::SubjectNotFound
            },
            final(self)@ == if has_subject(old(self)@, subject_id) {
                rotated(old(self)@, subject_id, new_refresh_token@)
            } else {
                old(self)@
            },
    {
        match self.position(subject_id) {
            Some(i) => {
                self.slots[i] = Slot {
                    subject_id,
                    stored_refresh_token: Some(String::from_str(new_refresh_token)),
                };
                assert(self@ =~= rotated(old(self)@, subject_id, new_refresh_token@));
                RotationOutcome::Updated
            },
            None => RotationOutcome::SubjectNotFound,
        }
    }

    /// Empties the slot of `subject_id` if it holds exactly
    /// `presented_refresh_token`; a client that holds a stale token cannot
    /// end a session it no longer has.
    pub fn invalidate(&mut self, subject_id: i64, presented_refresh_token: &str) -> (outcome:
        InvalidationOutcome)
        requires
            old(self).well_formed(),
        ensures
            final(self).well_formed(),
            outcome == if holds(old(self)@, subject_id, presented_refresh_token@) {
                InvalidationOutcome::Invalidated
            } else {
                InvalidationOutcome::NoMatchOrAlreadyInvalid
            },
            final(self)@ == if holds(old(self)@, subject_id, presented_refresh_token@) {
                cleared(old(self)@, subject_id)
            } else {
                old(self)@
            },
    {
        match self.position(subject_id) {
            Some(i) => {
                let matches = match &self.slots[i].stored_refresh_token {
                    Some(stored) => same_text(stored.as_str(), presented_refresh_token),
                    None => false,
                };
                assert(matches == holds(old(self)@, subject_id, presented_refresh_token@)) by {
                    assert(self@[i as int].subject_id == subject_id);
                }
                if matches {
                    self.slots[i] = Slot { subject_id, stored_refresh_token: None };
                    assert(self@ =~= cleared(old(self)@, subject_id));
                    InvalidationOutcome::Invalidated
                } else {
                    InvalidationOutcome::NoMatchOrAlreadyInvalid
                }
            },
            None => InvalidationOutcome::NoMatchOrAlreadyInvalid,
        }
    }

    /// Empties the slot of `subject_id`, whatever it held. An empty slot
    /// and an unknown subject are no errors: nothing changes.
    pub fn invalidate_unconditional(&mut self, subject_id: i64)
        requires
            old(self).well_formed(),
        ensures
            final(self).well_formed(),
            final(self)@ == cleared(old(self)@, subject_id),
    {
        match self.position(subject_id) {
            Some(i) => {
                self.slots[i] = Slot { subject_id, stored_refresh_token: None };
                assert(self@ =~= cleared(old(self)@, subject_id));
            },
            None => {
                assert(self@ =~= cleared(old(self)@, subject_id));
            },
        }
    }

    /// The first subject, in the order of the store, whose slot holds
    /// `token_string`.
    pub fn find_subject_by_refresh(&self, token_string: &str) -> (subject: Option<i64>)
        ensures
            subject == holder(self@, token_string@),
    {
        let mut i: usize = 0;
        let ghost all = self@;
        assert(all.skip(0) == all);
        while i < self.slots.len()
            invariant
                all == self@,
                i <= self.slots@.len(),
                holder(all, token_string@) == holder(all.skip(i as int), token_string@),
            decreases self.slots@.len() - i,
        {
            let held = match &self.slots[i].stored_refresh_token {
                Some(stored) => same_text(stored.as_str(), token_string),
                None => false,
            };
            proof {
                assert(all.skip(i as int)[0] == all[i as int]);
                assert(all.skip(i as int).drop_first() == all.skip(i + 1));
            }
            if held {
                return Some(self.slots[i].subject_id);
            }
            i = i + 1;
        }
        None
    }

    /// What the slot of `subject_id` holds; `None` also where the store
    /// does not know the subject.
    pub fn stored_refresh_token(&self, subject_id: i64) -> (token: Option<String>)
        requires
            self.well_formed(),
        ensures
            match token {
                Some(text) => holds(self@, subject_id, text@),
                None => forall|t: Seq<char>| !holds(self@, subject_id, t),
            },
    {
        match self.position(subject_id) {
            Some(i) => match &self.slots[i].stored_refresh_token {
                Some(stored) => Some(stored.clone()),
                None => {
                    assert(self@[i as int].stored_refresh_token is None);
                    None
                },
            },
            None => None,
        }
    }
}

/// Emptying a slot twice is the same as emptying it once.
pub proof fn lemma_clearing_is_idempotent(slots: Seq<SlotView>, subject_id: i64)
    ensures
        cleared(cleared(slots, subject_id), subject_id) == cleared(slots, subject_id),
{
    assert(cleared(cleared(slots, subject_id), subject_id) =~= cleared(slots, subject_id));
}

/// After a token was stored for a subject, that token is the only one the
/// subject is recognized by, and every other subject keeps what it held.
pub proof fn lemma_rotation_supersedes(
    slots: Seq<SlotView>,
    subject_id: i64,
    token: Seq<char>,
    other: Seq<char>,
    bystander: i64,
)
    ensures
        has_subject(slots, subject_id) ==> holds(rotated(slots, subject_id, token), subject_id, token),
        other != token ==> !holds(rotated(slots, subject_id, token), subject_id, other),
        bystander != subject_id ==> (holds(rotated(slots, subject_id, token), bystander, other)
            <==> holds(slots, bystander, other)),
        distinct_subjects(slots) ==> distinct_subjects(rotated(slots, subject_id, token)),
{
    let after = rotated(slots, subject_id, token);
    if has_subject(slots, subject_id) {
        let i = choose|i: int| 0 <= i < slots.len() && (#[trigger] slots[i]).subject_id == subject_id;
        assert(after[i].subject_id == subject_id);
    }
    if bystander != subject_id {
        if holds(after, bystander, other) {
            let i = choose|i: int|
                0 <= i < after.len() && (#[trigger] after[i]).subject_id == bystander
                    && after[i].stored_refresh_token == Some(other);
            assert(slots[i].subject_id == bystander);
        }
        if holds(slots, bystander, other) {
            let i = choose|i: int|
                0 <= i < slots.len() && (#[trigger] slots[i]).subject_id == bystander
                    && slots[i].stored_refresh_token == Some(other);
            assert(after[i].subject_id == bystander);
        }
    }
    if distinct_subjects(slots) {
        assert forall|i: int, j: int| 0 <= i < j < after.len() implies (#[trigger] after[i]).subject_id
            != (#[trigger] after[j]).subject_id by {
            assert(slots[i].subject_id != slots[j].subject_id);
        }
    }
}

/// A token that only one subject held finds nobody once that subject's
/// slot holds another token, and the token stored last finds a subject.
pub proof fn lemma_rotation_and_lookup(
    slots: Seq<SlotView>,
    subject_id: i64,
    token: Seq<char>,
    old_token: Seq<char>,
)
    requires
        has_subject(slots, subject_id),
    ensures
        holder(rotated(slots, subject_id, token), token) is Some,
        (forall|other: i64| other != subject_id ==> !holds(slots, other, token)) ==> holder(
            rotated(slots, subject_id, token),
            token,
        ) == Some(subject_id),
        old_token != token && (forall|other: i64|
            other != subject_id ==> !holds(slots, other, old_token)) ==> holder(
            rotated(slots, subject_id, token),
            old_token,
        ) is None,
{
    let after = rotated(slots, subject_id, token);
    lemma_holder(after, token);
    lemma_holder(after, old_token);
    let at = choose|i: int| 0 <= i < slots.len() && (#[trigger] slots[i]).subject_id == subject_id;
    assert(after[at].stored_refresh_token == Some(token));
    if forall|other: i64| other != subject_id ==> !holds(slots, other, token) {
        if holder(after, token) != Some(subject_id) {
            let i = choose|i: int|
                0 <= i < after.len() && (#[trigger] after[i]).stored_refresh_token == Some(token)
                    && holder(after, token) == Some(after[i].subject_id);
            assert(slots[i].subject_id != subject_id);
            assert(slots[i].stored_refresh_token == Some(token));
            assert(holds(slots, slots[i].subject_id, token));
        }
    }
    if old_token != token && (forall|other: i64|
        other != subject_id ==> !holds(slots, other, old_token)) {
        if holder(after, old_token) is Some {
            let i = choose|i: int|
                0 <= i < after.len() && (#[trigger] after[i]).stored_refresh_token == Some(
                    old_token,
                ) && holder(after, old_token) == Some(after[i].subject_id);
            assert(slots[i].subject_id != subject_id);
            assert(holds(slots, slots[i].subject_id, old_token));
        }
    }
}

/// `holder` finds a subject exactly where some slot holds the token, and
/// the subject it finds holds it.
pub proof fn lemma_holder(slots: Seq<SlotView>, token: Seq<char>)
    ensures
        holder(slots, token) is Some <==> exists|i: int|
            0 <= i < slots.len() && (#[trigger] slots[i]).stored_refresh_token == Some(token),
        holder(slots, token) is Some ==> exists|i: int|
            0 <= i < slots.len() && (#[trigger] slots[i]).stored_refresh_token == Some(token)
                && holder(slots, token) == Some(slots[i].subject_id),
    decreases slots.len(),
{
    if slots.len() > 0 {
        let tail = slots.drop_first();
        lemma_holder(tail, token);
        if slots[0].stored_refresh_token == Some(token) {
        } else {
            if holder(tail, token) is Some {
                let i = choose|i: int|
                    0 <= i < tail.len() && (#[trigger] tail[i]).stored_refresh_token == Some(token)
                        && holder(tail, token) == Some(tail[i].subject_id);
                assert(slots[i + 1] == tail[i]);
            }
            if exists|i: int|
                0 <= i < slots.len() && (#[trigger] slots[i]).stored_refresh_token == Some(token) {
                let i = choose|i: int|
                    0 <= i < slots.len() && (#[trigger] slots[i]).stored_refresh_token == Some(
                        token,
                    );
                assert(tail[i - 1] == slots[i]);
            }
        }
    }
}

} // verus!
