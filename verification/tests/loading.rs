use game_core::Exit;
use game_core::GameState;
use game_core::Json;
use game_core::LoadError;
use game_core::MazeFile;
use game_core::Room;

fn text(s: &str) -> Json {
    Json::Text(s.to_string())
}

fn object(members: Vec<(&str, Json)>) -> Json {
    Json::Object(members.into_iter().map(|(name, value)| (name.to_string(), value)).collect())
}

fn exit(label: &str, destination: &str) -> Exit {
    Exit { label: label.to_string(), destination: destination.to_string() }
}

fn value_of(json: &Json) -> serde_json::Value {
    match json {
        Json::Null => serde_json::Value::Null,
        Json::Bool(flag) => serde_json::Value::Bool(*flag),
        Json::Number => panic!("a number has no value to write"),
        Json::Text(text) => serde_json::Value::String(text.clone()),
        Json::Array(items) => serde_json::Value::Array(items.iter().map(value_of).collect()),
        Json::Object(members) => {
            let mut map = serde_json::Map::new();
            for (name, value) in members {
                assert!(map.insert(name.clone(), value_of(value)).is_none());
            }
            serde_json::Value::Object(map)
        }
    }
}

fn maze_text(rooms: Vec<Room>) -> Vec<u8> {
    serde_json::to_vec(&value_of(&MazeFile { rooms }.to_json())).unwrap()
}

const SMALL_MAZE: &str = r#"
{
    "rooms": [
        {
            "id": "cellar",
            "description": "A damp cellar.",
            "exits": [
                { "label": "Climb the stairs", "destination": "hall" },
                { "label": "Crawl into the pipe", "destination": "sewer" }
            ]
        },
        {
            "id": "hall",
            "description": "The great hall.",
            "exits": [],
            "is_end": true
        }
    ]
}
"#;

#[test]
fn default_maze_round_trips_through_json() {
    let text = maze_text(GameState::default_rooms());
    let maze = MazeFile::load(Some(text.as_slice())).unwrap();
    let loaded = GameState::from_rooms(maze.rooms);
    let built_in = GameState::from_rooms(GameState::default_rooms());
    assert_eq!(loaded.rooms, built_in.rooms);
    assert_eq!(loaded.current_room, built_in.current_room);
    assert_eq!(loaded.current_room, "start");
    assert_eq!(loaded.is_finished, built_in.is_finished);
    assert_eq!(loaded, GameState::new());
}

#[test]
fn pretty_printed_default_maze_round_trips_too() {
    let text = maze_text(GameState::default_rooms());
    let value: serde_json::Value = serde_json::from_slice(&text).unwrap();
    let pretty = serde_json::to_vec_pretty(&value).unwrap();
    assert_eq!(MazeFile::from_bytes(&pretty).unwrap().rooms, GameState::default_rooms());
}

#[test]
fn load_reads_a_maze() {
    let maze = MazeFile::load(Some(SMALL_MAZE.as_bytes())).unwrap();
    assert_eq!(
        maze.rooms,
        vec![
            Room {
                id: "cellar".to_string(),
                description: "A damp cellar.".to_string(),
                exits: vec![
                    exit("Climb the stairs", "hall"),
                    exit("Crawl into the pipe", "sewer"),
                ],
                is_end: false,
            },
            Room {
                id: "hall".to_string(),
                description: "The great hall.".to_string(),
                exits: vec![],
                is_end: true,
            },
        ]
    );
    let state = GameState::from_rooms(maze.rooms);
    assert_eq!(state.current_room().id, "cellar");
}

#[test]
fn a_missing_file_is_unreadable_and_the_default_maze_steps_in() {
    let missing = MazeFile::load(None);
    assert_eq!(missing, Err(LoadError::Unreadable));
    let garbled = MazeFile::load(Some(b"not a maze".as_slice()));
    assert_eq!(garbled, Err(LoadError::Malformed));
    assert_ne!(missing, garbled);

    let state = match missing {
        Ok(maze) => GameState::from_rooms(maze.rooms),
        Err(_) => GameState::new(),
    };
    assert_eq!(state.rooms, GameState::default_rooms());
    assert_eq!(state.current_room, "start");
    assert!(!state.is_finished);
}

#[test]
fn a_room_without_is_end_is_no_end_room() {
    let json = Json::parse(br#"{"id": "a", "description": "A.", "exits": []}"#).unwrap();
    let room = Room::from_json(&json).unwrap();
    assert!(!room.is_end);
    assert_eq!(room.id, "a");
    assert_eq!(room.description, "A.");
    assert!(room.exits.is_empty());

    let maze = MazeFile::from_bytes(br#"{"rooms": [{"id": "a", "description": "A.", "exits": []}]}"#)
        .unwrap();
    assert!(!maze.rooms[0].is_end);
}

#[test]
fn is_end_is_read_where_it_is_given() {
    let ended = object(vec![
        ("id", text("a")),
        ("description", text("A.")),
        ("exits", Json::Array(vec![])),
        ("is_end", Json::Bool(true)),
    ]);
    assert!(Room::from_json(&ended).unwrap().is_end);
    let open = object(vec![
        ("is_end", Json::Bool(false)),
        ("exits", Json::Array(vec![])),
        ("description", text("A.")),
        ("id", text("a")),
    ]);
    assert!(!Room::from_json(&open).unwrap().is_end);
}

#[test]
fn is_end_must_be_a_boolean() {
    for bad in [Json::Null, Json::Number, text("true"), Json::Array(vec![]), object(vec![])] {
        let json = object(vec![
            ("id", text("a")),
            ("description", text("A.")),
            ("exits", Json::Array(vec![])),
            ("is_end", bad),
        ]);
        assert_eq!(Room::from_json(&json), Err(LoadError::Malformed));
    }
}

#[test]
fn a_room_needs_id_description_and_exits() {
    let whole = vec![
        ("id", text("a")),
        ("description", text("A.")),
        ("exits", Json::Array(vec![])),
    ];
    assert!(Room::from_json(&object(whole)).is_ok());
    for left_out in ["id", "description", "exits"] {
        let mut members = vec![
            ("id", text("a")),
            ("description", text("A.")),
            ("exits", Json::Array(vec![])),
        ];
        members.retain(|(name, _)| *name != left_out);
        assert_eq!(Room::from_json(&object(members)), Err(LoadError::Malformed));
    }
}

#[test]
fn room_members_must_have_the_right_kind() {
    let bad_id = object(vec![
        ("id", Json::Number),
        ("description", text("A.")),
        ("exits", Json::Array(vec![])),
    ]);
    assert_eq!(Room::from_json(&bad_id), Err(LoadError::Malformed));
    let bad_description = object(vec![
        ("id", text("a")),
        ("description", Json::Null),
        ("exits", Json::Array(vec![])),
    ]);
    assert_eq!(Room::from_json(&bad_description), Err(LoadError::Malformed));
    let bad_exits = object(vec![
        ("id", text("a")),
        ("description", text("A.")),
        ("exits", object(vec![])),
    ]);
    assert_eq!(Room::from_json(&bad_exits), Err(LoadError::Malformed));
    let bad_exit = object(vec![
        ("id", text("a")),
        ("description", text("A.")),
        ("exits", Json::Array(vec![object(vec![("label", text("Go"))])])),
    ]);
    assert_eq!(Room::from_json(&bad_exit), Err(LoadError::Malformed));
}

#[test]
fn a_room_is_an_object() {
    for bad in [Json::Null, Json::Bool(true), Json::Number, text("a"), Json::Array(vec![])] {
        assert_eq!(Room::from_json(&bad), Err(LoadError::Malformed));
    }
}

#[test]
fn an_exit_has_a_label_and_a_destination() {
    let json = object(vec![("label", text("Go")), ("destination", text("there"))]);
    assert_eq!(Exit::from_json(&json), Ok(exit("Go", "there")));
    let swapped = object(vec![("destination", text("there")), ("label", text("Go"))]);
    assert_eq!(Exit::from_json(&swapped), Ok(exit("Go", "there")));
    let empty = object(vec![("label", text("")), ("destination", text(""))]);
    assert_eq!(Exit::from_json(&empty), Ok(exit("", "")));
}

#[test]
fn an_exit_without_label_or_destination_is_malformed() {
    assert_eq!(
        Exit::from_json(&object(vec![("label", text("Go"))])),
        Err(LoadError::Malformed)
    );
    assert_eq!(
        Exit::from_json(&object(vec![("destination", text("there"))])),
        Err(LoadError::Malformed)
    );
    assert_eq!(
        Exit::from_json(&object(vec![("label", Json::Number), ("destination", text("there"))])),
        Err(LoadError::Malformed)
    );
    assert_eq!(
        Exit::from_json(&object(vec![("label", text("Go")), ("destination", Json::Bool(true))])),
        Err(LoadError::Malformed)
    );
    assert_eq!(Exit::from_json(&Json::Array(vec![text("Go"), text("there")])), Err(LoadError::Malformed));
    assert_eq!(Exit::from_json(&text("there")), Err(LoadError::Malformed));
}

#[test]
fn exits_keep_their_order() {
    let list = Json::Array(vec![
        object(vec![("label", text("One")), ("destination", text("a"))]),
        object(vec![("label", text("Two")), ("destination", text("b"))]),
        object(vec![("label", text("Three")), ("destination", text("a"))]),
    ]);
    assert_eq!(
        Exit::list_from_json(&list),
        Ok(vec![exit("One", "a"), exit("Two", "b"), exit("Three", "a")])
    );
    assert_eq!(Exit::list_from_json(&Json::Array(vec![])), Ok(vec![]));
}

#[test]
fn one_bad_exit_spoils_the_list() {
    let list = Json::Array(vec![
        object(vec![("label", text("One")), ("destination", text("a"))]),
        Json::Null,
    ]);
    assert_eq!(Exit::list_from_json(&list), Err(LoadError::Malformed));
    assert_eq!(Exit::list_from_json(&object(vec![])), Err(LoadError::Malformed));
    assert_eq!(Exit::list_from_json(&Json::Null), Err(LoadError::Malformed));
}

#[test]
fn rooms_keep_their_order() {
    let list = Json::Array(vec![
        object(vec![("id", text("b")), ("description", text("B.")), ("exits", Json::Array(vec![]))]),
        object(vec![("id", text("a")), ("description", text("A.")), ("exits", Json::Array(vec![]))]),
    ]);
    let rooms = Room::list_from_json(&list).unwrap();
    assert_eq!(rooms.len(), 2);
    assert_eq!(rooms[0].id, "b");
    assert_eq!(rooms[1].id, "a");
    assert_eq!(Room::list_from_json(&Json::Array(vec![Json::Null])), Err(LoadError::Malformed));
    assert_eq!(Room::list_from_json(&text("rooms")), Err(LoadError::Malformed));
}

#[test]
fn a_maze_is_an_object_with_rooms() {
    assert_eq!(MazeFile::from_bytes(b"{}"), Err(LoadError::Malformed));
    assert_eq!(MazeFile::from_bytes(b"[]"), Err(LoadError::Malformed));
    assert_eq!(MazeFile::from_bytes(b"null"), Err(LoadError::Malformed));
    assert_eq!(MazeFile::from_bytes(b"{\"rooms\": {}}"), Err(LoadError::Malformed));
    assert_eq!(MazeFile::from_bytes(b"{\"rooms\": null}"), Err(LoadError::Malformed));
    assert_eq!(MazeFile::from_bytes(b"{\"Rooms\": []}"), Err(LoadError::Malformed));
    assert_eq!(MazeFile::from_bytes(b"{\"rooms\": [1]}"), Err(LoadError::Malformed));
    assert_eq!(MazeFile::from_bytes(b"{\"rooms\": ["), Err(LoadError::Malformed));
    assert_eq!(MazeFile::from_bytes(b""), Err(LoadError::Malformed));
}

#[test]
fn a_maze_may_list_no_rooms() {
    let maze = MazeFile::from_bytes(b"{\"rooms\": []}").unwrap();
    assert!(maze.rooms.is_empty());
    assert_eq!(MazeFile::from_json(&object(vec![("rooms", Json::Array(vec![]))])), Ok(MazeFile { rooms: vec![] }));
}

#[test]
fn other_members_are_ignored() {
    let maze = MazeFile::from_bytes(
        br#"{"title": "x", "rooms": [{"id": "a", "colour": 3, "description": "A.",
            "exits": [{"label": "Go", "destination": "b", "locked": false}], "is_end": false}]}"#,
    )
    .unwrap();
    assert_eq!(
        maze.rooms,
        vec![Room {
            id: "a".to_string(),
            description: "A.".to_string(),
            exits: vec![exit("Go", "b")],
            is_end: false,
        }]
    );
}

#[test]
fn exits_may_dangle_and_ids_may_repeat() {
    let maze = MazeFile::from_bytes(
        br#"{"rooms": [
            {"id": "a", "description": "One.", "exits": [{"label": "Go", "destination": "nowhere"}]},
            {"id": "a", "description": "Two.", "exits": []}
        ]}"#,
    )
    .unwrap();
    assert_eq!(maze.rooms.len(), 2);
    let mut state = GameState::from_rooms(maze.rooms);
    assert_eq!(state.current_room().description, "One.");
    state.choose_exit(0);
    assert_eq!(state.current_room, "nowhere");
    assert!(state.find_current_room().is_none());
}

#[test]
fn from_json_reads_a_maze_document() {
    let document = object(vec![(
        "rooms",
        Json::Array(vec![object(vec![
            ("id", text("a")),
            ("description", text("A.")),
            ("exits", Json::Array(vec![object(vec![("label", text("Go")), ("destination", text("a"))])])),
            ("is_end", Json::Bool(true)),
        ])]),
    )]);
    let maze = MazeFile::from_json(&document).unwrap();
    assert_eq!(
        maze.rooms,
        vec![Room {
            id: "a".to_string(),
            description: "A.".to_string(),
            exits: vec![exit("Go", "a")],
            is_end: true,
        }]
    );
    assert_eq!(maze.clone(), maze);
}

#[test]
fn default_maze_round_trips_through_its_document() {
    let maze = MazeFile { rooms: GameState::default_rooms() };
    assert_eq!(MazeFile::from_json(&maze.to_json()), Ok(maze));
}

#[test]
fn an_exit_is_written_as_label_and_destination() {
    assert_eq!(
        exit("Go", "there").to_json(),
        object(vec![("label", text("Go")), ("destination", text("there"))])
    );
    assert_eq!(Exit::from_json(&exit("Go", "there").to_json()), Ok(exit("Go", "there")));
}

#[test]
fn exits_are_written_in_order() {
    assert_eq!(Exit::list_to_json(&vec![]), Json::Array(vec![]));
    assert_eq!(
        Exit::list_to_json(&vec![exit("One", "a"), exit("Two", "b")]),
        Json::Array(vec![
            object(vec![("label", text("One")), ("destination", text("a"))]),
            object(vec![("label", text("Two")), ("destination", text("b"))]),
        ])
    );
}

#[test]
fn a_room_is_written_with_all_four_members() {
    let room = Room {
        id: "a".to_string(),
        description: "A.".to_string(),
        exits: vec![exit("Go", "b")],
        is_end: true,
    };
    assert_eq!(
        room.to_json(),
        object(vec![
            ("id", text("a")),
            ("description", text("A.")),
            (
                "exits",
                Json::Array(vec![object(vec![("label", text("Go")), ("destination", text("b"))])])
            ),
            ("is_end", Json::Bool(true)),
        ])
    );
    assert_eq!(Room::from_json(&room.to_json()), Ok(room));
}

#[test]
fn a_maze_is_written_as_an_object_with_rooms() {
    let empty = MazeFile { rooms: vec![] };
    assert_eq!(empty.to_json(), object(vec![("rooms", Json::Array(vec![]))]));
    let rooms = vec![
        Room { id: "a".to_string(), description: "A.".to_string(), exits: vec![], is_end: false },
        Room { id: "b".to_string(), description: "B.".to_string(), exits: vec![], is_end: true },
    ];
    assert_eq!(
        MazeFile { rooms: rooms.clone() }.to_json(),
        object(vec![("rooms", Room::list_to_json(&rooms))])
    );
    assert_eq!(MazeFile::from_bytes(&maze_text(rooms.clone())), Ok(MazeFile { rooms }));
}

#[test]
fn text_with_quotes_and_line_breaks_round_trips() {
    let rooms = vec![Room {
        id: "a \"b\" \\ c".to_string(),
        description: "line one\nline two\t\u{e2}\u{20ac}\u{201d} \u{1f9f1}".to_string(),
        exits: vec![exit("", "a \"b\" \\ c")],
        is_end: false,
    }];
    assert_eq!(MazeFile::from_bytes(&maze_text(rooms.clone())), Ok(MazeFile { rooms }));
}
