//! The maze file: a JSON object whose member `rooms` lists the rooms.
//!
//! A room is an object with the members `id` and `description`, both
//! strings, `exits`, a list, and optionally `is_end`, a boolean that is
//! `false` where it is left out. An exit is an object with the members
//! `label` and `destination`, both strings. Other members are ignored.
//!
//! [`maze_of`] says which maze a document describes and [`maze_json`] which
//! document describes a maze; the laws between them show that what is
//! written is read back unchanged.

use vstd::prelude::*;
use crate::error::LoadError;
use crate::json::json_document;
use crate::json::member_names;
use crate::json::Json;
use crate::json::JsonView;
use crate::lookup::lemma_first_position_is;
use crate::room::exits_view;
use crate::room::rooms_view;
use crate::room::Exit;
use crate::room::ExitView;
use crate::room::Room;
use crate::room::RoomView;

verus! {

/// What a maze file holds: the rooms, the first of which is where a session
/// starts.
#[derive(Debug, PartialEq, Eq)]
pub struct MazeFile {
    /// The rooms, in the order of the file.
    pub rooms: Vec<Room>,
}

impl View for MazeFile {
    type V = Seq<RoomView>;

    open spec fn view(&self) -> Seq<RoomView> {
        rooms_view(self.rooms@)
    }
}

impl Clone for MazeFile {
    fn clone(&self) -> (copy: Self)
        ensures
            copy@ == self@,
    {
        let rooms = self.rooms.clone();
        assert(rooms_view(rooms@) =~= rooms_view(self.rooms@));
        MazeFile { rooms }
    }
}

/// The string that `member` is, where it is there and is one.
pub open spec fn text_of(member: Option<JsonView>) -> Option<Seq<char>> {
    match member {
        Some(JsonView::Text(text)) => Some(text),
        _ => None,
    }
}

/// The boolean that `member` is: `false` where it is left out, and none
/// where it is there and is no boolean.
pub open spec fn flag_of(member: Option<JsonView>) -> Option<bool> {
    match member {
        None => Some(false),
        Some(JsonView::Bool(flag)) => Some(flag),
        Some(_) => None,
    }
}

/// The exit that `json` describes, where it describes one.
pub open spec fn exit_of(json: JsonView) -> Option<ExitView> {
    match (text_of(json.member("label"@)), text_of(json.member("destination"@))) {
        (Some(label), Some(destination)) => Some(ExitView { label, destination }),
        _ => None,
    }
}

/// The exits that `json` lists, where it is a list of exits.
pub open spec fn exits_of(json: JsonView) -> Option<Seq<ExitView>> {
    match json {
        JsonView::Array(items) => {
            if forall|i: int| 0 <= i < items.len() ==> (#[trigger] exit_of(items[i])) is Some {
                Some(Seq::new(items.len(), |i: int| exit_of(items[i]).unwrap()))
            } else {
                None
            }
        },
        _ => None,
    }
}

/// The exits that `member` lists, where it is there and is a list of exits.
pub open spec fn exits_of_member(member: Option<JsonView>) -> Option<Seq<ExitView>> {
    match member {
        Some(json) => exits_of(json),
        None => None,
    }
}

/// The room that `json` describes, where it describes one.
pub open spec fn room_of(json: JsonView) -> Option<RoomView> {
    match (
        text_of(json.member("id"@)),
        text_of(json.member("description"@)),
        exits_of_member(json.member("exits"@)),
        flag_of(json.member("is_end"@)),
    ) {
        (Some(id), Some(description), Some(exits), Some(is_end)) => Some(
            RoomView { id, description, exits, is_end },
        ),
        _ => None,
    }
}

/// The rooms that `json` lists, where it is a list of rooms.
pub open spec fn rooms_of(json: JsonView) -> Option<Seq<RoomView>> {
    match json {
        JsonView::Array(items) => {
            if forall|i: int| 0 <= i < items.len() ==> (#[trigger] room_of(items[i])) is Some {
                Some(Seq::new(items.len(), |i: int| room_of(items[i]).unwrap()))
            } else {
                None
            }
        },
        _ => None,
    }
}

/// The maze that the document `json` describes, where it describes one.
pub open spec fn maze_of(json: JsonView) -> Option<Seq<RoomView>> {
    match json.member("rooms"@) {
        Some(list) => rooms_of(list),
        None => None,
    }
}

/// The maze that the JSON text `text` describes, where it describes one.
pub open spec fn maze_in(text: Seq<u8>) -> Option<Seq<RoomView>> {
    match json_document(text) {
        Some(json) => maze_of(json),
        None => None,
    }
}

/// The document that describes `exit`.
pub open spec fn exit_json(exit: ExitView) -> JsonView {
    JsonView::Object(
        seq![
            ("label"@, JsonView::Text(exit.label)),
            ("destination"@, JsonView::Text(exit.destination)),
        ],
    )
}

/// The document that lists `exits`.
pub open spec fn exits_json(exits: Seq<ExitView>) -> JsonView {
    JsonView::Array(Seq::new(exits.len(), |i: int| exit_json(exits[i])))
}

/// The document that describes `room`.
pub open spec fn room_json(room: RoomView) -> JsonView {
    JsonView::Object(
        seq![
            ("id"@, JsonView::Text(room.id)),
            ("description"@, JsonView::Text(room.description)),
            ("exits"@, exits_json(room.exits)),
            ("is_end"@, JsonView::Bool(room.is_end)),
        ],
    )
}

/// The document that lists `rooms`.
pub open spec fn rooms_json(rooms: Seq<RoomView>) -> JsonView {
    JsonView::Array(Seq::new(rooms.len(), |i: int| room_json(rooms[i])))
}

/// The document that describes the maze `rooms`.
pub open spec fn maze_json(rooms: Seq<RoomView>) -> JsonView {
    JsonView::Object(seq![("rooms"@, rooms_json(rooms))])
}

/// A room whose document leaves out `is_end` is no end room.
pub proof fn lemma_is_end_defaults_to_false(json: JsonView)
    requires
        room_of(json) is Some,
        json.member("is_end"@) is None,
    ensures
        !room_of(json).unwrap().is_end,
{
}

/// The document that describes an exit is read back as that exit.
pub proof fn lemma_exit_round_trip(exit: ExitView)
    ensures
        exit_of(exit_json(exit)) == Some(exit),
{
    let members = exit_json(exit)->Object_0;
    reveal_strlit("label");
    reveal_strlit("destination");
    assert(member_names(members)[0] == "label"@);
    assert(member_names(members)[1] == "destination"@);
    lemma_first_position_is(member_names(members), "label"@, 0);
    lemma_first_position_is(member_names(members), "destination"@, 1);
}

/// The document that lists exits is read back as those exits.
pub proof fn lemma_exits_round_trip(exits: Seq<ExitView>)
    ensures
        exits_of(exits_json(exits)) == Some(exits),
{
    let items = exits_json(exits)->Array_0;
    assert forall|i: int| 0 <= i < items.len() implies (#[trigger] exit_of(items[i])) == Some(
        exits[i],
    ) by {
        lemma_exit_round_trip(exits[i]);
    }
    assert(exits_of(exits_json(exits)).unwrap() =~= exits);
}

/// The document that describes a room is read back as that room.
pub proof fn lemma_room_round_trip(room: RoomView)
    ensures
        room_of(room_json(room)) == Some(room),
{
    let members = room_json(room)->Object_0;
    reveal_strlit("id");
    reveal_strlit("description");
    reveal_strlit("exits");
    reveal_strlit("is_end");
    assert(member_names(members)[0] == "id"@);
    assert(member_names(members)[1] == "description"@);
    assert(member_names(members)[2] == "exits"@);
    assert(member_names(members)[3] == "is_end"@);
    lemma_first_position_is(member_names(members), "id"@, 0);
    lemma_first_position_is(member_names(members), "description"@, 1);
    lemma_first_position_is(member_names(members), "exits"@, 2);
    lemma_first_position_is(member_names(members), "is_end"@, 3);
    lemma_exits_round_trip(room.exits);
}

/// The document that lists rooms is read back as those rooms.
pub proof fn lemma_rooms_round_trip(rooms: Seq<RoomView>)
    ensures
        rooms_of(rooms_json(rooms)) == Some(rooms),
{
    let items = rooms_json(rooms)->Array_0;
    assert forall|i: int| 0 <= i < items.len() implies (#[trigger] room_of(items[i])) == Some(
        rooms[i],
    ) by {
        lemma_room_round_trip(rooms[i]);
    }
    assert(rooms_of(rooms_json(rooms)).unwrap() =~= rooms);
}

/// The document that describes a maze is read back as that maze.
pub proof fn lemma_maze_round_trip(rooms: Seq<RoomView>)
    ensures
        maze_of(maze_json(rooms)) == Some(rooms),
{
    let members = maze_json(rooms)->Object_0;
    assert(member_names(members)[0] == "rooms"@);
    lemma_first_position_is(member_names(members), "rooms"@, 0);
    lemma_rooms_round_trip(rooms);
}

impl Exit {
    /// The document that describes the exit.
    pub fn to_json(&self) -> (json: Json)
        ensures
            json@ == exit_json(self@),
    {
        let mut members: Vec<(String, Json)> = Vec::new();
        members.push(("label".to_owned(), Json::Text(self.label.clone())));
        members.push(("destination".to_owned(), Json::Text(self.destination.clone())));
        let json = Json::Object(members);
        proof {
            reveal_with_fuel(<Json as View>::view, 2);
            assert(json@->Object_0 =~= exit_json(self@)->Object_0);
        }
        json
    }

    /// The document that lists `exits`.
    pub fn list_to_json(exits: &Vec<Exit>) -> (json: Json)
        ensures
            json@ == exits_json(exits_view(exits@)),
    {
        let mut items: Vec<Json> = Vec::new();
        let mut i: usize = 0;
        while i < exits.len()
            invariant
                i <= exits.len(),
                items.len() == i,
                forall|j: int| 0 <= j < i ==> items@[j]@ == exit_json(exits@[j]@),
            decreases exits.len() - i,
        {
            items.push(exits[i].to_json());
            i += 1;
        }
        let json = Json::Array(items);
        proof {
            reveal_with_fuel(<Json as View>::view, 2);
            assert(json@->Array_0 =~= exits_json(exits_view(exits@))->Array_0);
        }
        json
    }

    /// The exit that `json` describes.
    pub fn from_json(json: &Json) -> (loaded: Result<Exit, LoadError>)
        ensures
            match loaded {
                Ok(exit) => exit_of(json@) == Some(exit@),
                Err(error) => error == LoadError::Malformed && exit_of(json@) is None,
            },
    {
        match (json.get("label"), json.get("destination")) {
            (Some(Json::Text(label)), Some(Json::Text(destination))) => Ok(
                Exit { label: label.clone(), destination: destination.clone() },
            ),
            _ => Err(LoadError::Malformed),
        }
    }

    /// The exits that `json` lists.
    pub fn list_from_json(json: &Json) -> (loaded: Result<Vec<Exit>, LoadError>)
        ensures
            match loaded {
                Ok(exits) => exits_of(json@) == Some(exits_view(exits@)),
                Err(error) => error == LoadError::Malformed && exits_of(json@) is None,
            },
    {
        match json {
            Json::Array(items) => {
                let mut exits: Vec<Exit> = Vec::new();
                let mut i: usize = 0;
                while i < items.len()
                    invariant
                        i <= items.len(),
                        exits.len() == i,
                        json@ == JsonView::Array(json@->Array_0),
                        json@->Array_0.len() == items.len(),
                        forall|j: int| 0 <= j < items.len() ==> (json@->Array_0)[j] == items@[j]@,
                        forall|j: int| 0 <= j < i ==> exit_of(items@[j]@) == Some(exits@[j]@),
                    decreases items.len() - i,
                {
                    match Exit::from_json(&items[i]) {
                        Ok(exit) => {
                            exits.push(exit);
                        },
                        Err(error) => {
                            assert(exit_of((json@->Array_0)[i as int]) is None);
                            return Err(error);
                        },
                    }
                    i += 1;
                }
                assert(exits_of(json@).unwrap() =~= exits_view(exits@));
                Ok(exits)
            },
            _ => Err(LoadError::Malformed),
        }
    }
}

impl Room {
    /// The document that describes the room.
    pub fn to_json(&self) -> (json: Json)
        ensures
            json@ == room_json(self@),
    {
        let mut members: Vec<(String, Json)> = Vec::new();
        members.push(("id".to_owned(), Json::Text(self.id.clone())));
        members.push(("description".to_owned(), Json::Text(self.description.clone())));
        members.push(("exits".to_owned(), Exit::list_to_json(&self.exits)));
        members.push(("is_end".to_owned(), Json::Bool(self.is_end)));
        let json = Json::Object(members);
        proof {
            reveal_with_fuel(<Json as View>::view, 2);
            assert(json@->Object_0 =~= room_json(self@)->Object_0);
        }
        json
    }

    /// The document that lists `rooms`.
    pub fn list_to_json(rooms: &Vec<Room>) -> (json: Json)
        ensures
            json@ == rooms_json(rooms_view(rooms@)),
    {
        let mut items: Vec<Json> = Vec::new();
        let mut i: usize = 0;
        while i < rooms.len()
            invariant
                i <= rooms.len(),
                items.len() == i,
                forall|j: int| 0 <= j < i ==> items@[j]@ == room_json(rooms@[j]@),
            decreases rooms.len() - i,
        {
            items.push(rooms[i].to_json());
            i += 1;
        }
        let json = Json::Array(items);
        proof {
            reveal_with_fuel(<Json as View>::view, 2);
            assert(json@->Array_0 =~= rooms_json(rooms_view(rooms@))->Array_0);
        }
        json
    }

    /// The room that `json` describes.
    pub fn from_json(json: &Json) -> (loaded: Result<Room, LoadError>)
        ensures
            match loaded {
                Ok(room) => room_of(json@) == Some(room@),
                Err(error) => error == LoadError::Malformed && room_of(json@) is None,
            },
    {
        let id = match json.get("id") {
            Some(Json::Text(id)) => id.clone(),
            _ => {
                return Err(LoadError::Malformed);
            },
        };
        let description = match json.get("description") {
            Some(Json::Text(description)) => description.clone(),
            _ => {
                return Err(LoadError::Malformed);
            },
        };
        let exits = match json.get("exits") {
            Some(list) => Exit::list_from_json(list)?,
            None => {
                return Err(LoadError::Malformed);
            },
        };
        let is_end = match json.get("is_end") {
            None => false,
            Some(Json::Bool(flag)) => *flag,
            Some(_) => {
                return Err(LoadError::Malformed);
            },
        };
        Ok(Room { id, description, exits, is_end })
    }

    /// The rooms that `json` lists.
    pub fn list_from_json(json: &Json) -> (loaded: Result<Vec<Room>, LoadError>)
        ensures
            match loaded {
                Ok(rooms) => rooms_of(json@) == Some(rooms_view(rooms@)),
                Err(error) => error == LoadError::Malformed && rooms_of(json@) is None,
            },
    {
        match json {
            Json::Array(items) => {
                let mut rooms: Vec<Room> = Vec::new();
                let mut i: usize = 0;
                while i < items.len()
                    invariant
                        i <= items.len(),
                        rooms.len() == i,
                        json@ == JsonView::Array(json@->Array_0),
                        json@->Array_0.len() == items.len(),
                        forall|j: int| 0 <= j < items.len() ==> (json@->Array_0)[j] == items@[j]@,
                        forall|j: int| 0 <= j < i ==> room_of(items@[j]@) == Some(rooms@[j]@),
                    decreases items.len() - i,
                {
                    match Room::from_json(&items[i]) {
                        Ok(room) => {
                            rooms.push(room);
                        },
                        Err(error) => {
                            assert(room_of((json@->Array_0)[i as int]) is None);
                            return Err(error);
                        },
                    }
                    i += 1;
                }
                assert(rooms_of(json@).unwrap() =~= rooms_view(rooms@));
                Ok(rooms)
            },
            _ => Err(LoadError::Malformed),
        }
    }
}

impl MazeFile {
    /// The document that describes the maze.
    pub fn to_json(&self) -> (json: Json)
        ensures
            json@ == maze_json(self@),
            maze_of(json@) == Some(self@),
    {
        let mut members: Vec<(String, Json)> = Vec::new();
        members.push(("rooms".to_owned(), Room::list_to_json(&self.rooms)));
        let json = Json::Object(members);
        proof {
            reveal_with_fuel(<Json as View>::view, 2);
            assert(json@->Object_0 =~= maze_json(self@)->Object_0);
            lemma_maze_round_trip(self@);
        }
        json
    }

    /// The maze that the document `json` describes.
    pub fn from_json(json: &Json) -> (loaded: Result<MazeFile, LoadError>)
        ensures
            match loaded {
                Ok(maze) => maze_of(json@) == Some(maze@),
                Err(error) => error == LoadError::Malformed && maze_of(json@) is None,
            },
    {
        match json.get("rooms") {
            Some(list) => {
                let rooms = Room::list_from_json(list)?;
                Ok(MazeFile { rooms })
            },
            None => Err(LoadError::Malformed),
        }
    }

    /// The maze that the JSON text `text` describes.
    pub fn from_bytes(text: &[u8]) -> (loaded: Result<MazeFile, LoadError>)
        ensures
            match loaded {
                Ok(maze) => maze_in(text@) == Some(maze@),
                Err(error) => error == LoadError::Malformed && maze_in(text@) is None,
            },
    {
        let json = Json::parse(text)?;
        MazeFile::from_json(&json)
    }

    /// The maze of a maze file, from what reading the file gave: its bytes,
    /// or `None` where it could not be read.
    pub fn load(contents: Option<&[u8]>) -> (loaded: Result<MazeFile, LoadError>)
        ensures
            match loaded {
                Ok(maze) => contents matches Some(text) && maze_in(text@) == Some(maze@),
                Err(LoadError::Unreadable) => contents is None,
                Err(LoadError::Malformed) => contents matches Some(text) && maze_in(text@) is None,
            },
    {
        match contents {
            Some(text) => MazeFile::from_bytes(text),
            None => Err(LoadError::Unreadable),
        }
    }
}

} // verus!
