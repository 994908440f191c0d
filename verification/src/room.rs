//! Rooms, exits and their mathematical views.

use vstd::prelude::*;
use crate::lookup::first_position;
use crate::lookup::lemma_first_position_is;

verus! {

/// A directed, labelled edge out of a room.
#[derive(Debug, PartialEq, Eq)]
pub struct Exit {
    /// The text shown for the choice.
    pub label: String,
    /// The id of the room the exit leads to. It may name no room at all.
    pub destination: String,
}

/// One location of the maze.
#[derive(Debug, PartialEq, Eq)]
pub struct Room {
    /// The identifier that exits refer to.
    pub id: String,
    /// The text shown while the room is the current one.
    pub description: String,
    /// The ways out, in the order in which they are offered and numbered.
    pub exits: Vec<Exit>,
    /// Whether leaving this room finishes the maze.
    pub is_end: bool,
}

/// What an [`Exit`] is in contracts.
pub struct ExitView {
    pub label: Seq<char>,
    pub destination: Seq<char>,
}

/// What a [`Room`] is in contracts.
pub struct RoomView {
    pub id: Seq<char>,
    pub description: Seq<char>,
    pub exits: Seq<ExitView>,
    pub is_end: bool,
}

impl View for Exit {
    type V = ExitView;

    open spec fn view(&self) -> ExitView {
        ExitView { label: self.label@, destination: self.destination@ }
    }
}

impl View for Room {
    type V = RoomView;

    open spec fn view(&self) -> RoomView {
        RoomView {
            id: self.id@,
            description: self.description@,
            exits: exits_view(self.exits@),
            is_end: self.is_end,
        }
    }
}

/// The views of a sequence of exits, in the same order.
pub open spec fn exits_view(exits: Seq<Exit>) -> Seq<ExitView> {
    Seq::new(exits.len(), |i: int| exits[i]@)
}

/// The views of a sequence of rooms, in the same order.
pub open spec fn rooms_view(rooms: Seq<Room>) -> Seq<RoomView> {
    Seq::new(rooms.len(), |i: int| rooms[i]@)
}

/// The ids of a sequence of rooms, in the same order.
pub open spec fn room_ids(rooms: Seq<RoomView>) -> Seq<Seq<char>> {
    Seq::new(rooms.len(), |i: int| rooms[i].id)
}

/// Whether no two of `rooms` share an id.
pub open spec fn ids_are_distinct(rooms: Seq<RoomView>) -> bool {
    forall|i: int, j: int|
        0 <= i < j < rooms.len() ==> (#[trigger] rooms[i]).id != (#[trigger] rooms[j]).id
}

/// Whether every exit of `rooms` leads to one of `rooms`.
pub open spec fn exits_lead_to_rooms(rooms: Seq<RoomView>) -> bool {
    forall|i: int, j: int|
        0 <= i < rooms.len() && 0 <= j < rooms[i].exits.len() ==> room_ids(rooms).contains(
            #[trigger] rooms[i].exits[j].destination,
        )
}

/// Where no two rooms share an id, the id of a room names that room.
pub proof fn lemma_distinct_id_names_its_room(rooms: Seq<RoomView>, i: int)
    requires
        ids_are_distinct(rooms),
        0 <= i < rooms.len(),
    ensures
        room_ids(rooms).contains(rooms[i].id),
        first_position(room_ids(rooms), rooms[i].id) == i,
{
    lemma_first_position_is(room_ids(rooms), rooms[i].id, i);
}

impl Clone for Exit {
    fn clone(&self) -> (copy: Self)
        ensures
            copy@ == self@,
    {
        Exit { label: self.label.clone(), destination: self.destination.clone() }
    }
}

impl Clone for Room {
    fn clone(&self) -> (copy: Self)
        ensures
            copy@ == self@,
    {
        let exits = self.exits.clone();
        assert(exits_view(exits@) =~= exits_view(self.exits@));
        Room {
            id: self.id.clone(),
            description: self.description.clone(),
            exits,
            is_end: self.is_end,
        }
    }
}

} // verus!
