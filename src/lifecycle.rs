//! What each delivered event does: messages become index writes, renames and
//! room replacements change the room mapping.
use crate::document::{
    body_of, build_message, is_document_for, target_content, target_event_id, IncomingMessage,
    LuoxuMessage, SenderProfile,
};
use crate::store::{moved, opt_str_view, updated, MappingError, RoomTable};
use vstd::prelude::*;

verus! {

/// A document and the index that it is written to, as an insert-or-replace
/// keyed by the document's `event_id`.
#[derive(Debug, Clone)]
pub struct IndexWrite {
    pub index: String,
    pub message: LuoxuMessage,
}

/// Why a room replacement was not carried out.
#[derive(Debug, Clone, Copy, PartialEq, Eq, Structural)]
pub enum LifecycleError {
    /// The successor room could not be joined; the mapping is untouched.
    JoinFailed,
    /// The mapping refused the move.
    Mapping(MappingError),
}

/// The index write owed for message `ev`, received by `own_user_id`, in a
/// room mapping `table`: none for the receiver's own messages, for kinds that
/// are not indexed, and for rooms without an index.
pub fn on_room_message(
    table: &RoomTable,
    ev: IncomingMessage,
    own_user_id: &str,
    profile: SenderProfile,
) -> (r: Option<IndexWrite>)
    requires
        target_event_id(ev).len() > 0,
        target_event_id(ev)[0] == '$',
    ensures
        ev.sender@ == own_user_id@ ==> r is None,
        r is Some <==> ev.sender@ != own_user_id@ && body_of(target_content(ev)) is Some
            && table.index_of(ev.room_id@) is Some,
        r matches Some(w) ==> table.index_of(ev.room_id@) == Some(w.index@) && is_document_for(
            w.message,
            ev,
            profile,
        ),
{
    let room = ev.room_id.clone();
    let message = match build_message(ev, own_user_id, profile) {
        Some(m) => m,
        None => return None,
    };
    match table.get_index(room.as_str()) {
        Some(index) => Some(IndexWrite { index, message }),
        None => None,
    }
}

/// A room's name changed to `name` (or was removed): the display name follows.
pub fn on_room_name(table: &mut RoomTable, room_id: &str, name: Option<&str>)
    requires
        old(table).wf(),
    ensures
        updated(*old(table), *final(table), room_id@, None, opt_str_view(name)),
{
    table.update_entry(room_id, None, name);
}

/// Room `room_id` was replaced by `replacement_room`, which the caller tried to
/// join first (`joined`). Without the join nothing changes; with it, the
/// mapping moves to the successor room.
pub fn on_room_tombstone(
    table: &mut RoomTable,
    room_id: &str,
    replacement_room: &str,
    joined: bool,
) -> (r: Result<(), LifecycleError>)
    requires
        old(table).wf(),
    ensures
        final(table).wf(),
        !joined ==> r == Err::<(), LifecycleError>(LifecycleError::JoinFailed) && *final(table)
            == *old(table),
        joined ==> (r is Ok <==> old(table).index_of(room_id@) is Some && old(table).name_of(
            room_id@,
        ) is Some),
        joined && r is Err ==> r == Err::<(), LifecycleError>(
            LifecycleError::Mapping(MappingError::SourceMissing),
        ) && *final(table) == *old(table),
        r is Ok ==> moved(*old(table), *final(table), room_id@, replacement_room@),
{
    if !joined {
        return Err(LifecycleError::JoinFailed);
    }
    match table.move_entry(room_id, replacement_room) {
        Ok(()) => Ok(()),
        Err(e) => Err(LifecycleError::Mapping(e)),
    }
}

/// Once a room is replaced, messages of the successor room go to the index
/// that the replaced room was bound to.
pub proof fn lemma_successor_uses_old_index(
    t0: RoomTable,
    t1: RoomTable,
    old_room: Seq<char>,
    new_room: Seq<char>,
    ev: IncomingMessage,
)
    requires
        moved(t0, t1, old_room, new_room),
        ev.room_id@ == new_room,
    ensures
        t1.index_of(ev.room_id@) == t0.index_of(old_room),
{
}

/// A rename applied twice leaves what it left after the first time.
pub proof fn lemma_rename_idempotent(
    t0: RoomTable,
    t1: RoomTable,
    t2: RoomTable,
    room: Seq<char>,
    name: Option<Seq<char>>,
)
    requires
        updated(t0, t1, room, None, name),
        updated(t1, t2, room, None, name),
    ensures
        forall|k: Seq<char>| t2.index_of(k) == t1.index_of(k) && t2.name_of(k) == t1.name_of(k),
{
}

/// A room replacement handled again (after the successor was already bound)
/// can move the mapping again: the replaced room keeps its entry, and the
/// successor ends with the same values.
pub proof fn lemma_tombstone_replay(
    t0: RoomTable,
    t1: RoomTable,
    t2: RoomTable,
    old_room: Seq<char>,
    new_room: Seq<char>,
)
    requires
        old_room != new_room,
        moved(t0, t1, old_room, new_room),
        t0.index_of(old_room) is Some,
        t0.name_of(old_room) is Some,
        moved(t1, t2, old_room, new_room),
    ensures
        t1.index_of(old_room) is Some && t1.name_of(old_room) is Some,
        t2.index_of(new_room) == t1.index_of(new_room),
        t2.name_of(new_room) == t1.name_of(new_room),
{
    assert(t1.record(old_room) == t0.record(old_room));
}

} // verus!
