//! The session that walks a maze.
//!
//! A [`GameState`] holds the rooms, the id of the current room and a flag
//! that is raised once the player leaves an end room. [`GameView`] is the
//! same session in contracts, and its spec functions say what each
//! operation does. The laws below them hold of every session.
//!
//! The current room is the first room whose id is the cursor's. Where no
//! room has that id, which is where an exit that leads nowhere was taken,
//! [`GameState::find_current_room`] finds none, and [`GameState::current_room`]
//! and [`GameState::choose_exit`] may not be called.

use vstd::prelude::*;
use crate::lookup::first_position;
use crate::lookup::lemma_first_position_is;
use crate::lookup::lemma_first_position_of_present;
use crate::room::exits_lead_to_rooms;
use crate::room::ids_are_distinct;
use crate::room::room_ids;
use crate::room::rooms_view;
use crate::room::Exit;
use crate::room::ExitView;
use crate::room::Room;
use crate::room::RoomView;

verus! {

/// The live session: the rooms, the cursor and whether the maze is done.
#[derive(Debug, PartialEq, Eq)]
pub struct GameState {
    /// The rooms, never changed once the session exists.
    pub rooms: Vec<Room>,
    /// The id of the room the player is in.
    pub current_room: String,
    /// Whether the player has ever left an end room.
    pub is_finished: bool,
}

/// What the player can ask of a session.
#[derive(Debug, Clone, Copy, PartialEq, Eq)]
pub enum GameAction {
    /// Throw the session away and start the built-in maze afresh.
    Restart,
    /// Take the exit of the current room that has this position.
    ChooseExit(usize),
}

/// What a [`GameState`] is in contracts.
pub struct GameView {
    pub rooms: Seq<RoomView>,
    pub current_room: Seq<char>,
    pub is_finished: bool,
}

impl View for GameState {
    type V = GameView;

    open spec fn view(&self) -> GameView {
        GameView {
            rooms: rooms_view(self.rooms@),
            current_room: self.current_room@,
            is_finished: self.is_finished,
        }
    }
}

impl Clone for GameState {
    fn clone(&self) -> (copy: Self)
        ensures
            copy@ == self@,
    {
        let rooms = self.rooms.clone();
        assert(rooms_view(rooms@) =~= rooms_view(self.rooms@));
        GameState {
            rooms,
            current_room: self.current_room.clone(),
            is_finished: self.is_finished,
        }
    }
}

/// The built-in maze: a start room, a hallway and an end room.
pub open spec fn default_maze() -> Seq<RoomView> {
    seq![
        RoomView {
            id: "start"@,
            description: "You are in a small stone chamber with one door ahead."@,
            exits: seq![ExitView { label: "Go through the door"@, destination: "middle"@ }],
            is_end: false,
        },
        RoomView {
            id: "middle"@,
            description: "You stand in a long hallway. There is a door behind and one ahead."@,
            exits: seq![
                ExitView { label: "Go back"@, destination: "start"@ },
                ExitView { label: "Go forward"@, destination: "end"@ },
            ],
            is_end: false,
        },
        RoomView {
            id: "end"@,
            description: "You find yourself in a bright room â€” the end of the maze!"@,
            exits: seq![],
            is_end: true,
        },
    ]
}

impl GameView {
    /// The session that begins in the first of `rooms`.
    pub open spec fn start(rooms: Seq<RoomView>) -> GameView {
        GameView { rooms, current_room: rooms[0].id, is_finished: false }
    }

    /// Whether the cursor names a room of the maze.
    pub open spec fn has_current_room(self) -> bool {
        room_ids(self.rooms).contains(self.current_room)
    }

    /// The position of the current room: the first one with the cursor's id.
    pub open spec fn current_position(self) -> int {
        first_position(room_ids(self.rooms), self.current_room)
    }

    /// The current room.
    pub open spec fn current(self) -> RoomView {
        self.rooms[self.current_position()]
    }

    /// Whether the current room exists and has an exit at `index`.
    pub open spec fn can_choose(self, index: int) -> bool {
        self.has_current_room() && 0 <= index < self.current().exits.len()
    }

    /// The session after the exit at `index` was asked for: the cursor moves
    /// to where the exit leads, and the session is finished if it was
    /// already or if the room that was left is an end room. Where there is
    /// no such exit, nothing changes.
    pub open spec fn after_choice(self, index: int) -> GameView {
        if self.can_choose(index) {
            GameView {
                rooms: self.rooms,
                current_room: self.current().exits[index].destination,
                is_finished: self.is_finished || self.current().is_end,
            }
        } else {
            self
        }
    }

    /// The session after the exits at `indices` were asked for, one after
    /// the other.
    pub open spec fn after_choices(self, indices: Seq<int>) -> GameView
        decreases indices.len(),
    {
        if indices.len() == 0 {
            self
        } else {
            self.after_choices(indices.drop_last()).after_choice(indices.last())
        }
    }

    /// The session after `action`.
    pub open spec fn after_action(self, action: GameAction) -> GameView {
        match action {
            GameAction::Restart => GameView::start(default_maze()),
            GameAction::ChooseExit(index) => self.after_choice(index as int),
        }
    }
}

/// A session that starts from a maze with at least one room is in the first
/// room of that maze.
pub proof fn lemma_start_is_first_room(rooms: Seq<RoomView>)
    requires
        rooms.len() > 0,
    ensures
        GameView::start(rooms).has_current_room(),
        GameView::start(rooms).current_position() == 0,
        GameView::start(rooms).current() == rooms[0],
{
    lemma_first_position_is(room_ids(rooms), rooms[0].id, 0);
}

/// Asking for an exit that the current room does not have changes nothing.
pub proof fn lemma_no_such_exit(state: GameView, index: int)
    requires
        state.has_current_room(),
        !(0 <= index < state.current().exits.len()),
    ensures
        state.after_choice(index) == state,
{
}

/// No choice of exit ever takes a finished session back to unfinished.
pub proof fn lemma_finished_stays(state: GameView, indices: Seq<int>)
    requires
        state.is_finished,
    ensures
        state.after_choices(indices).is_finished,
    decreases indices.len(),
{
    if indices.len() > 0 {
        lemma_finished_stays(state, indices.drop_last());
    }
}

/// In a maze whose exits all lead to rooms, a choice of exit made in a room
/// of the maze ends in a room of the maze.
pub proof fn lemma_cursor_stays_in_maze(state: GameView, index: int)
    requires
        state.has_current_room(),
        exits_lead_to_rooms(state.rooms),
    ensures
        state.after_choice(index).has_current_room(),
{
    lemma_first_position_of_present(room_ids(state.rooms), state.current_room);
}

/// In a maze whose exits all lead to rooms, no choice of exit ever takes the
/// cursor out of the maze.
pub proof fn lemma_cursor_never_leaves_maze(state: GameView, indices: Seq<int>)
    requires
        state.has_current_room(),
        exits_lead_to_rooms(state.rooms),
    ensures
        state.after_choices(indices).has_current_room(),
    decreases indices.len(),
{
    if indices.len() > 0 {
        lemma_cursor_never_leaves_maze(state, indices.drop_last());
        lemma_rooms_stay(state, indices.drop_last());
        lemma_cursor_stays_in_maze(state.after_choices(indices.drop_last()), indices.last());
    }
}

/// The rooms of the built-in maze have ids of their own, and every exit
/// leads to one of them.
pub proof fn lemma_default_maze_is_sound()
    ensures
        ids_are_distinct(default_maze()),
        exits_lead_to_rooms(default_maze()),
{
    let ids = room_ids(default_maze());
    assert(ids[0] == "start"@);
    assert(ids[1] == "middle"@);
    assert(ids[2] == "end"@);
    reveal_strlit("start");
    reveal_strlit("middle");
    reveal_strlit("end");
    assert("start"@.len() == 5);
    assert("middle"@.len() == 6);
    assert("end"@.len() == 3);
}

/// No choice of exit ever changes the rooms.
pub proof fn lemma_rooms_stay(state: GameView, indices: Seq<int>)
    ensures
        state.after_choices(indices).rooms == state.rooms,
    decreases indices.len(),
{
    if indices.len() > 0 {
        lemma_rooms_stay(state, indices.drop_last());
    }
}

impl GameState {
    /// A session in the built-in maze.
    pub fn new() -> (state: Self)
        ensures
            state@ == GameView::start(default_maze()),
            state@.has_current_room(),
            state@.current_position() == 0,
            state@.current() == default_maze()[0],
            ids_are_distinct(state@.rooms),
            exits_lead_to_rooms(state@.rooms),
    {
        proof {
            lemma_start_is_first_room(default_maze());
            lemma_default_maze_is_sound();
        }
        Self::from_rooms(Self::default_rooms())
    }

    /// A session in the maze `rooms`, starting in its first room.
    pub fn from_rooms(rooms: Vec<Room>) -> (state: Self)
        requires
            rooms.len() > 0,
        ensures
            state.rooms == rooms,
            state@ == GameView::start(rooms_view(rooms@)),
            state@.has_current_room(),
            state@.current_position() == 0,
            state@.current() == rooms[0]@,
    {
        let start_room: String = rooms[0].id.clone();
        proof {
            lemma_start_is_first_room(rooms_view(rooms@));
        }
        Self { rooms, current_room: start_room, is_finished: false }
    }

    /// The rooms of the built-in maze.
    pub fn default_rooms() -> (rooms: Vec<Room>)
        ensures
            rooms_view(rooms@) == default_maze(),
    {
        let rooms = vec![
            Room {
                id: "start".to_string(),
                description: "You are in a small stone chamber with one door ahead.".to_string(),
                exits: vec![
                    Exit {
                        label: "Go through the door".to_string(),
                        destination: "middle".to_string(),
                    },
                ],
                is_end: false,
            },
            Room {
                id: "middle".to_string(),
                description: "You stand in a long hallway. There is a door behind and one ahead.".to_string(),
                exits: vec![
                    Exit { label: "Go back".to_string(), destination: "start".to_string() },
                    Exit { label: "Go forward".to_string(), destination: "end".to_string() },
                ],
                is_end: false,
            },
            Room {
                id: "end".to_string(),
                description: "You find yourself in a bright room â€” the end of the maze!".to_string(),
                exits: vec![],
                is_end: true,
            },
        ];
        assert(rooms@[0]@.exits =~= default_maze()[0].exits);
        assert(rooms@[1]@.exits =~= default_maze()[1].exits);
        assert(rooms@[2]@.exits =~= default_maze()[2].exits);
        assert(rooms_view(rooms@) =~= default_maze());
        rooms
    }

    /// The current room, if the cursor names one: the first room whose id is
    /// the cursor's.
    pub fn find_current_room(&self) -> (found: Option<&Room>)
        ensures
            found is Some <==> self@.has_current_room(),
            found matches Some(room) ==> {
                &&& 0 <= self@.current_position() < self.rooms.len()
                &&& *room == self.rooms@[self@.current_position()]
                &&& room@ == self@.current()
            },
    {
        let mut i: usize = 0;
        while i < self.rooms.len()
            invariant
                i <= self.rooms.len(),
                forall|j: int| 0 <= j < i ==> room_ids(self@.rooms)[j] != self.current_room@,
            decreases self.rooms.len() - i,
        {
            if self.rooms[i].id == self.current_room {
                proof {
                    lemma_first_position_is(room_ids(self@.rooms), self.current_room@, i as int);
                }
                return Some(&self.rooms[i]);
            }
            i += 1;
        }
        None
    }

    /// The current room.
    pub fn current_room(&self) -> (room: &Room)
        requires
            self@.has_current_room(),
        ensures
            0 <= self@.current_position() < self.rooms.len(),
            *room == self.rooms@[self@.current_position()],
            room@ == self@.current(),
    {
        self.find_current_room().unwrap()
    }

    /// Takes the exit of the current room at `index`, if there is one.
    pub fn choose_exit(&mut self, index: usize)
        requires
            old(self)@.has_current_room(),
        ensures
            final(self)@ == old(self)@.after_choice(index as int),
            final(self).rooms == old(self).rooms,
            old(self).is_finished ==> final(self).is_finished,
            !old(self)@.can_choose(index as int) ==> *final(self) == *old(self),
            exits_lead_to_rooms(old(self)@.rooms) ==> final(self)@.has_current_room(),
    {
        proof {
            if exits_lead_to_rooms(self@.rooms) {
                lemma_cursor_stays_in_maze(self@, index as int);
            }
        }
        let room = self.current_room();
        let is_end = room.is_end;
        if index < room.exits.len() {
            let destination = room.exits[index].destination.clone();
            self.current_room = destination;
            if is_end {
                self.is_finished = true;
            }
        }
    }

    /// Applies what the player asked for.
    pub fn update_state(&mut self, action: GameAction)
        requires
            action is ChooseExit ==> old(self)@.has_current_room(),
        ensures
            final(self)@ == old(self)@.after_action(action),
            action is ChooseExit ==> final(self).rooms == old(self).rooms,
            action is Restart || exits_lead_to_rooms(old(self)@.rooms)
                ==> final(self)@.has_current_room(),
    {
        match action {
            GameAction::Restart => {
                *self = GameState::new();
            },
            GameAction::ChooseExit(index) => {
                self.choose_exit(index);
            },
        }
    }
}

} // verus!
