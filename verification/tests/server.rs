use truckersmp::error::Error;
use truckersmp::game::Game;
use truckersmp::server::{
    deserialize_bool, get_servers, ping_cell, ping_millis, servers_from, RawServer, Server,
    ServerInfo, ServerInfoType, Speedlimit,
};
use truckersmp::text::{chars_of, dir_prefix_of, push_decimal, same_text};

fn described(short_name: &str, speed_limiter: u32, promods: bool, event: bool) -> RawServer {
    RawServer {
        game: Game::ETS2,
        ip: "1.2.3.4".to_string(),
        name: format!("Server {}", short_name),
        short_name: short_name.to_string(),
        online: true,
        players: 1200,
        queue: 0,
        max_players: 4000,
        speed_limiter,
        collisions: true,
        cars_for_players: true,
        police_cars_for_players: false,
        afk_enabled: false,
        event,
        promods,
    }
}

fn options(game: Option<Game>, kinds: Vec<ServerInfoType>) -> ServerInfo {
    ServerInfo { game, server_type: kinds, ping: false, speed_limit: false, additional: false }
}

#[test]
fn speed_limits_have_their_texts() {
    assert_eq!(Speedlimit::High.to_str(), "60/110");
    assert_eq!(Speedlimit::Normal.to_str(), "80/150");
    assert_eq!(Speedlimit::Disabled.to_str(), "Disabled");
}

#[test]
fn server_kinds_have_their_names_and_default() {
    assert_eq!(ServerInfoType::default(), ServerInfoType::All);
    assert_eq!(ServerInfoType::Simulation.name(), "Simulation");
    assert_eq!(ServerInfoType::Arcade.name(), "Arcade");
    assert_eq!(ServerInfoType::Promods.name(), "Promods");
    assert_eq!(ServerInfoType::Event.name(), "Event");
    assert_eq!(ServerInfoType::Unknown.name(), "Unknown");
    assert_eq!(ServerInfoType::All.name(), "All");
}

#[test]
fn kinds_follow_flags_and_short_name() {
    assert_eq!(Server::from(described("SIM1", 1, false, false)).server_type, vec![ServerInfoType::Simulation]);
    assert_eq!(Server::from(described("ARC", 0, false, false)).server_type, vec![ServerInfoType::Arcade]);
    assert_eq!(
        Server::from(described("EU PM SIM", 1, true, false)).server_type,
        vec![ServerInfoType::Promods, ServerInfoType::Simulation]
    );
    assert_eq!(
        Server::from(described("xARCxSIMx", 1, true, true)).server_type,
        vec![
            ServerInfoType::Promods,
            ServerInfoType::Simulation,
            ServerInfoType::Arcade,
            ServerInfoType::Event,
        ]
    );
    assert_eq!(Server::from(described("EVT", 0, false, true)).server_type, vec![ServerInfoType::Event]);
}

#[test]
fn server_without_any_sign_is_unknown() {
    assert_eq!(Server::from(described("", 0, false, false)).server_type, vec![ServerInfoType::Unknown]);
    assert_eq!(Server::from(described("sim arc", 0, false, false)).server_type, vec![ServerInfoType::Unknown]);
    assert_eq!(Server::from(described("SI M", 0, false, false)).server_type, vec![ServerInfoType::Unknown]);
    assert_eq!(Server::from(described("AR", 0, false, false)).server_type, vec![ServerInfoType::Unknown]);
}

#[test]
fn speed_limit_follows_limiter_and_short_name() {
    assert_eq!(Server::from(described("SIM1", 1, false, false)).speed_limit, Speedlimit::High);
    assert_eq!(Server::from(described("ARC1", 7, false, false)).speed_limit, Speedlimit::High);
    assert_eq!(Server::from(described("ARC1", 0, false, false)).speed_limit, Speedlimit::Disabled);
    assert_eq!(Server::from(described("SIM1", 0, false, false)).speed_limit, Speedlimit::Normal);
    assert_eq!(Server::from(described("", 0, false, false)).speed_limit, Speedlimit::Normal);
}

#[test]
fn other_fields_are_carried_over() {
    let mut raw = described("SIM1", 1, false, false);
    raw.game = Game::ATS;
    raw.queue = 17;
    raw.online = false;
    raw.ip = "not an address".to_string();
    let server = Server::from(raw);
    assert_eq!(server.game, Game::ATS);
    assert_eq!(server.name, "Server SIM1");
    assert_eq!(server.players, 1200);
    assert_eq!(server.max_players, 4000);
    assert_eq!(server.player_queue, 17);
    assert!(server.collisions);
    assert!(server.cars_for_players);
    assert!(!server.police_cars_for_players);
    assert!(!server.afk_enabled);
    assert!(!server.online);
    assert_eq!(server.ip, "not an address");
}

#[test]
fn servers_are_converted_in_order() {
    let servers = servers_from(vec![
        described("SIM1", 1, false, false),
        described("ARC", 0, false, false),
        described("PM", 0, true, false),
    ]);
    let names: Vec<&str> = servers.iter().map(|s| s.name.as_str()).collect();
    assert_eq!(names, vec!["Server SIM1", "Server ARC", "Server PM"]);
    assert_eq!(servers[1].speed_limit, Speedlimit::Disabled);
    assert_eq!(servers[2].server_type, vec![ServerInfoType::Promods]);
    assert!(servers_from(vec![]).is_empty());
}

#[test]
fn kinds_are_joined_with_comma_and_space() {
    assert_eq!(Server::from(described("SIM", 1, false, false)).types_cell(), "Simulation");
    assert_eq!(Server::from(described("SIM", 1, true, false)).types_cell(), "Promods, Simulation");
    assert_eq!(
        Server::from(described("SIM ARC", 1, true, true)).types_cell(),
        "Promods, Simulation, Arcade, Event"
    );
    let mut none = Server::from(described("", 1, false, false));
    assert_eq!(none.types_cell(), "Unknown");
    none.server_type.clear();
    assert_eq!(none.types_cell(), "");
}

#[test]
fn players_cell_shows_the_queue_only_if_there_is_one() {
    let mut server = Server::from(described("SIM", 1, false, false));
    assert_eq!(server.players_cell(), "1200/4000 ");
    server.player_queue = 35;
    assert_eq!(server.players_cell(), "1200/4000 (+35)");
    server.players = 0;
    server.max_players = u32::MAX;
    server.player_queue = 1;
    assert_eq!(server.players_cell(), "0/4294967295 (+1)");
}

#[test]
fn speed_limit_cell_has_a_unit_unless_disabled() {
    assert_eq!(Server::from(described("SIM", 1, false, false)).speed_limit_cell(), "60/110 km/h");
    assert_eq!(Server::from(described("SIM", 0, false, false)).speed_limit_cell(), "80/150 km/h");
    assert_eq!(Server::from(described("ARC", 0, false, false)).speed_limit_cell(), "Disabled ");
}

#[test]
fn ping_is_shown_in_milliseconds() {
    assert_eq!(ping_cell(0), "0 ms");
    assert_eq!(ping_cell(45), "45 ms");
    assert_eq!(ping_cell(9999), "9999 ms");
}

#[test]
fn ping_without_reply_counts_as_9999() {
    assert_eq!(ping_millis(None), 9999);
    assert_eq!(ping_millis(Some(0)), 0);
    assert_eq!(ping_millis(Some(37)), 37);
    assert_eq!(ping_millis(Some(u32::MAX as u128)), u32::MAX);
    assert_eq!(ping_millis(Some(u32::MAX as u128 + 1)), 0);
    assert_eq!(ping_millis(Some((1u128 << 40) + 5)), 5);
}

#[test]
fn header_has_four_fixed_columns_and_the_chosen_ones() {
    let mut info = options(None, vec![ServerInfoType::All]);
    assert_eq!(info.header(), vec!["Server Name", "Game", "Type", "Players"]);
    info.ping = true;
    assert_eq!(info.header(), vec!["Server Name", "Game", "Type", "Players", "Ping"]);
    info.speed_limit = true;
    info.additional = true;
    assert_eq!(
        info.header(),
        vec!["Server Name", "Game", "Type", "Players", "Speed Limit", "Ping", "Additional"]
    );
}

#[test]
fn servers_are_filtered_by_game() {
    let mut ats = described("SIM", 1, false, false);
    ats.game = Game::ATS;
    let servers = servers_from(vec![described("SIM", 1, false, false), ats, described("ARC", 0, false, false)]);
    assert_eq!(options(None, vec![ServerInfoType::All]).select(&servers), vec![0, 1, 2]);
    assert_eq!(options(Some(Game::ETS2), vec![ServerInfoType::All]).select(&servers), vec![0, 2]);
    assert_eq!(options(Some(Game::ATS), vec![ServerInfoType::All]).select(&servers), vec![1]);
}

#[test]
fn servers_are_filtered_by_kind() {
    let servers = servers_from(vec![
        described("SIM", 1, false, false),
        described("ARC", 0, false, false),
        described("SIM", 1, true, false),
        described("", 0, false, false),
        described("ARC", 0, false, true),
    ]);
    assert_eq!(options(None, vec![ServerInfoType::Simulation]).select(&servers), vec![0, 2]);
    assert_eq!(options(None, vec![ServerInfoType::Arcade, ServerInfoType::Promods]).select(&servers), vec![1, 2, 4]);
    assert_eq!(options(None, vec![ServerInfoType::Unknown]).select(&servers), vec![3]);
    assert_eq!(options(None, vec![ServerInfoType::Event, ServerInfoType::All]).select(&servers), vec![0, 1, 2, 3, 4]);
    assert_eq!(options(None, vec![]).select(&servers), Vec::<usize>::new());
    assert!(options(None, vec![ServerInfoType::Event]).wants(&servers[4]));
    assert!(!options(None, vec![ServerInfoType::Event]).wants(&servers[0]));
    assert!(!options(Some(Game::ATS), vec![ServerInfoType::All]).wants(&servers[0]));
}

#[test]
fn decimal_numerals_have_no_leading_zeros() {
    for (n, text) in [(0u32, "0"), (7, "7"), (10, "10"), (105, "105"), (4294967295, "4294967295")] {
        let mut out = String::from("n=");
        push_decimal(&mut out, n);
        assert_eq!(out, format!("n={}", text));
    }
}

#[test]
fn characters_are_listed_one_by_one() {
    assert_eq!(chars_of("aé/"), vec!['a', 'é', '/']);
    assert!(chars_of("").is_empty());
}

#[test]
fn directory_prefix_ends_with_one_separator() {
    assert_eq!(dir_prefix_of("a"), "a/");
    assert_eq!(dir_prefix_of("a/"), "a/");
    assert_eq!(dir_prefix_of("a\\"), "a\\");
    assert_eq!(dir_prefix_of(""), "");
}

#[test]
fn flags_are_read_from_their_text() {
    assert_eq!(deserialize_bool("true"), Some(true));
    assert_eq!(deserialize_bool("false"), Some(false));
}

#[test]
fn other_texts_are_no_flags() {
    assert_eq!(deserialize_bool(""), None);
    assert_eq!(deserialize_bool("True"), None);
    assert_eq!(deserialize_bool("1"), None);
    assert_eq!(deserialize_bool("false "), None);
}

#[test]
fn answer_with_error_flag_is_an_error() {
    let answer = get_servers(true, vec![described("SIM", 1, false, false)]);
    assert_eq!(answer.err(), Some(Error::TruckersMPError));
    assert_eq!(get_servers(true, vec![]).err(), Some(Error::TruckersMPError));
}

#[test]
fn answer_without_error_flag_gives_the_servers() {
    let servers =
        get_servers(false, vec![described("SIM", 1, false, false), described("ARC", 0, true, false)])
            .unwrap();
    assert_eq!(servers.len(), 2);
    assert_eq!(servers[0].server_type, vec![ServerInfoType::Simulation]);
    assert_eq!(servers[1].server_type, vec![ServerInfoType::Promods, ServerInfoType::Arcade]);
    assert!(get_servers(false, vec![]).unwrap().is_empty());
}

#[test]
fn texts_are_compared_character_by_character() {
    assert!(same_text("", ""));
    assert!(same_text("ets2", "ets2"));
    assert!(!same_text("ets2", "ets"));
    assert!(!same_text("ets2", "ETS2"));
}
