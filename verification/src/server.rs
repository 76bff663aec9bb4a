//! The game servers: what is shown of each, and which are shown.

use vstd::prelude::*;
use vstd::string::*;

use crate::error::Error;
use crate::game::Game;
use crate::text::{contains_text, decimal, occurs_in, push_decimal, same_text};

verus! {

/// The kinds of server that the user can ask for.
#[derive(Debug, Clone, Copy, PartialEq, Eq, Structural)]
pub enum ServerInfoType {
    Simulation,
    Arcade,
    Promods,
    Event,
    Unknown,
    All,
}

impl Default for ServerInfoType {
    fn default() -> (kind: ServerInfoType)
        ensures
            kind == ServerInfoType::All,
    {
        ServerInfoType::All
    }
}

/// The speed limit that a server enforces.
#[derive(Debug, Clone, Copy, PartialEq, Eq, Structural)]
pub enum Speedlimit {
    High,
    Normal,
    Disabled,
}

/// One server as the TruckersMP API describes it.
#[derive(Debug)]
pub struct RawServer {
    pub game: Game,
    pub ip: String,
    pub name: String,
    pub short_name: String,
    pub online: bool,
    pub players: u32,
    pub queue: u32,
    pub max_players: u32,
    pub speed_limiter: u32,
    pub collisions: bool,
    pub cars_for_players: bool,
    pub police_cars_for_players: bool,
    pub afk_enabled: bool,
    pub event: bool,
    pub promods: bool,
}

/// One server as it is shown to the user.
#[derive(Debug)]
pub struct Server {
    pub game: Game,
    pub server_type: Vec<ServerInfoType>,
    pub name: String,
    pub players: u32,
    pub max_players: u32,
    pub player_queue: u32,
    pub speed_limit: Speedlimit,
    pub collisions: bool,
    pub cars_for_players: bool,
    pub police_cars_for_players: bool,
    pub afk_enabled: bool,
    pub online: bool,
    pub ip: String,
}

/// Get the current server info.
#[derive(Debug)]
pub struct ServerInfo {
    /// The game to get the server info for.
    pub game: Option<Game>,
    /// The server types to get specifically info for.
    pub server_type: Vec<ServerInfoType>,
    /// Whether to show the ping to the server.
    pub ping: bool,
    /// Whether to show the server's speed limit.
    pub speed_limit: bool,
    /// Whether to show additional info about the server.
    pub additional: bool,
}

pub ghost struct RawServerView {
    pub game: Game,
    pub ip: Seq<char>,
    pub name: Seq<char>,
    pub short_name: Seq<char>,
    pub online: bool,
    pub players: u32,
    pub queue: u32,
    pub max_players: u32,
    pub speed_limiter: u32,
    pub collisions: bool,
    pub cars_for_players: bool,
    pub police_cars_for_players: bool,
    pub afk_enabled: bool,
    pub event: bool,
    pub promods: bool,
}

pub ghost struct ServerView {
    pub game: Game,
    pub server_type: Seq<ServerInfoType>,
    pub name: Seq<char>,
    pub players: u32,
    pub max_players: u32,
    pub player_queue: u32,
    pub speed_limit: Speedlimit,
    pub collisions: bool,
    pub cars_for_players: bool,
    pub police_cars_for_players: bool,
    pub afk_enabled: bool,
    pub online: bool,
    pub ip: Seq<char>,
}

pub ghost struct ServerInfoView {
    pub game: Option<Game>,
    pub server_type: Seq<ServerInfoType>,
    pub ping: bool,
    pub speed_limit: bool,
    pub additional: bool,
}

impl View for RawServer {
    type V = RawServerView;

    open spec fn view(&self) -> RawServerView {
        RawServerView {
            game: self.game,
            ip: self.ip@,
            name: self.name@,
            short_name: self.short_name@,
            online: self.online,
            players: self.players,
            queue: self.queue,
            max_players: self.max_players,
            speed_limiter: self.speed_limiter,
            collisions: self.collisions,
            cars_for_players: self.cars_for_players,
            police_cars_for_players: self.police_cars_for_players,
            afk_enabled: self.afk_enabled,
            event: self.event,
            promods: self.promods,
        }
    }
}

impl DeepView for RawServer {
    type V = RawServerView;

    open spec fn deep_view(&self) -> RawServerView {
        self@
    }
}

impl View for Server {
    type V = ServerView;

    open spec fn view(&self) -> ServerView {
        ServerView {
            game: self.game,
            server_type: self.server_type@,
            name: self.name@,
            players: self.players,
            max_players: self.max_players,
            player_queue: self.player_queue,
            speed_limit: self.speed_limit,
            collisions: self.collisions,
            cars_for_players: self.cars_for_players,
            police_cars_for_players: self.police_cars_for_players,
            afk_enabled: self.afk_enabled,
            online: self.online,
            ip: self.ip@,
        }
    }
}

impl DeepView for Server {
    type V = ServerView;

    open spec fn deep_view(&self) -> ServerView {
        self@
    }
}

impl View for ServerInfo {
    type V = ServerInfoView;

    open spec fn view(&self) -> ServerInfoView {
        ServerInfoView {
            game: self.game,
            server_type: self.server_type@,
            ping: self.ping,
            speed_limit: self.speed_limit,
            additional: self.additional,
        }
    }
}

/// The kinds that are added for a property of the server, in this order.
pub open spec fn kind_if(present: bool, kind: ServerInfoType) -> Seq<ServerInfoType> {
    if present {
        seq![kind]
    } else {
        Seq::empty()
    }
}

/// The kinds of a server: every kind that its flags and its short name
/// show, and `Unknown` if they show none.
pub open spec fn server_types_of(promods: bool, short_name: Seq<char>, event: bool) -> Seq<
    ServerInfoType,
> {
    let shown = kind_if(promods, ServerInfoType::Promods) + kind_if(
        occurs_in("SIM"@, short_name),
        ServerInfoType::Simulation,
    ) + kind_if(occurs_in("ARC"@, short_name), ServerInfoType::Arcade) + kind_if(
        event,
        ServerInfoType::Event,
    );
    if shown.len() == 0 {
        seq![ServerInfoType::Unknown]
    } else {
        shown
    }
}

/// The speed limit of a server: the high one where the limiter is on, none
/// on an arcade server without limiter, the normal one elsewhere.
pub open spec fn speed_limit_of(speed_limiter: u32, short_name: Seq<char>) -> Speedlimit {
    if speed_limiter != 0 {
        Speedlimit::High
    } else if occurs_in("ARC"@, short_name) {
        Speedlimit::Disabled
    } else {
        Speedlimit::Normal
    }
}

/// The server that is shown for what the API describes.
pub open spec fn server_of(raw: RawServerView) -> ServerView {
    ServerView {
        game: raw.game,
        server_type: server_types_of(raw.promods, raw.short_name, raw.event),
        name: raw.name,
        players: raw.players,
        max_players: raw.max_players,
        player_queue: raw.queue,
        speed_limit: speed_limit_of(raw.speed_limiter, raw.short_name),
        collisions: raw.collisions,
        cars_for_players: raw.cars_for_players,
        police_cars_for_players: raw.police_cars_for_players,
        afk_enabled: raw.afk_enabled,
        online: raw.online,
        ip: raw.ip,
    }
}

impl Speedlimit {
    pub open spec fn to_str_spec(self) -> Seq<char> {
        match self {
            Speedlimit::High => "60/110"@,
            Speedlimit::Normal => "80/150"@,
            Speedlimit::Disabled => "Disabled"@,
        }
    }

    /// The limits in towns and on roads, as text.
    pub fn to_str(&self) -> (text: &'static str)
        ensures
            text@ == self.to_str_spec(),
    {
        match self {
            Speedlimit::High => "60/110",
            Speedlimit::Normal => "80/150",
            Speedlimit::Disabled => "Disabled",
        }
    }
}

impl ServerInfoType {
    pub open spec fn name_spec(self) -> Seq<char> {
        match self {
            ServerInfoType::Simulation => "Simulation"@,
            ServerInfoType::Arcade => "Arcade"@,
            ServerInfoType::Promods => "Promods"@,
            ServerInfoType::Event => "Event"@,
            ServerInfoType::Unknown => "Unknown"@,
            ServerInfoType::All => "All"@,
        }
    }

    /// The name of the kind, as it is shown.
    pub fn name(&self) -> (text: &'static str)
        ensures
            text@ == self.name_spec(),
    {
        match self {
            ServerInfoType::Simulation => "Simulation",
            ServerInfoType::Arcade => "Arcade",
            ServerInfoType::Promods => "Promods",
            ServerInfoType::Event => "Event",
            ServerInfoType::Unknown => "Unknown",
            ServerInfoType::All => "All",
        }
    }
}

/// The names of the kinds, separated by a comma and a space.
pub open spec fn joined_names(kinds: Seq<ServerInfoType>) -> Seq<char>
    decreases kinds.len(),
{
    if kinds.len() == 0 {
        Seq::empty()
    } else if kinds.len() == 1 {
        kinds[0].name_spec()
    } else {
        joined_names(kinds.drop_last()) + ", "@ + kinds.last().name_spec()
    }
}

/// Players on the server and its capacity, and the queue if there is one.
pub open spec fn players_text(players: u32, max_players: u32, queue: u32) -> Seq<char> {
    decimal(players as nat) + "/"@ + decimal(max_players as nat) + " "@ + if queue > 0 {
        "(+"@ + decimal(queue as nat) + ")"@
    } else {
        Seq::empty()
    }
}

/// The speed limit with its unit; no unit where there is no limit.
pub open spec fn speed_limit_text(limit: Speedlimit) -> Seq<char> {
    limit.to_str_spec() + " "@ + if limit == Speedlimit::Disabled {
        Seq::empty()
    } else {
        "km/h"@
    }
}

pub open spec fn ping_text(millis: u32) -> Seq<char> {
    decimal(millis as nat) + " ms"@
}

/// The round-trip time shown for a server: the measured time in
/// milliseconds, cut to 32 bits, or 9999 where no reply came.
pub open spec fn ping_millis_spec(reply: Option<u128>) -> u32 {
    match reply {
        Some(millis) => (millis % 0x1_0000_0000) as u32,
        None => 9999,
    }
}

pub fn ping_millis(reply: Option<u128>) -> (millis: u32)
    ensures
        millis == ping_millis_spec(reply),
{
    match reply {
        Some(millis) => (millis % 0x1_0000_0000) as u32,
        None => 9999,
    }
}

fn contains_kind(kinds: &Vec<ServerInfoType>, kind: ServerInfoType) -> (found: bool)
    ensures
        found == kinds@.contains(kind),
{
    for i in 0..kinds.len()
        invariant
            forall|k: int| 0 <= k < i ==> kinds@[k] != kind,
    {
        if kinds[i] == kind {
            return true;
        }
    }
    false
}

impl Server {
    /// Derives what is shown of a server from what the API describes.
    pub fn from(value: RawServer) -> (server: Server)
        ensures
            server@ == server_of(value@),
    {
        let mut server_type: Vec<ServerInfoType> = Vec::new();
        let simulation = contains_text(value.short_name.as_str(), "SIM");
        let arcade = contains_text(value.short_name.as_str(), "ARC");
        if value.promods {
            server_type.push(ServerInfoType::Promods);
        }
        if simulation {
            server_type.push(ServerInfoType::Simulation);
        }
        if arcade {
            server_type.push(ServerInfoType::Arcade);
        }
        if value.event {
            server_type.push(ServerInfoType::Event);
        }
        if server_type.len() == 0 {
            server_type.push(ServerInfoType::Unknown);
        }
        assert(server_type@ =~= server_types_of(value.promods, value.short_name@, value.event));
        let speed_limit = if value.speed_limiter == 0 {
            if arcade {
                Speedlimit::Disabled
            } else {
                Speedlimit::Normal
            }
        } else {
            Speedlimit::High
        };
        Server {
            game: value.game,
            server_type,
            name: value.name,
            players: value.players,
            max_players: value.max_players,
            player_queue: value.queue,
            speed_limit,
            collisions: value.collisions,
            cars_for_players: value.cars_for_players,
            police_cars_for_players: value.police_cars_for_players,
            afk_enabled: value.afk_enabled,
            online: value.online,
            ip: value.ip,
        }
    }

    /// The kinds of the server, as text.
    pub fn types_cell(&self) -> (text: String)
        ensures
            text@ == joined_names(self@.server_type),
    {
        let mut text = String::new();
        for i in 0..self.server_type.len()
            invariant
                text@ == joined_names(self.server_type@.take(i as int)),
        {
            let ghost before = self.server_type@.take(i as int);
            let ghost now = self.server_type@.take(i + 1);
            proof {
                assert(now.drop_last() =~= before);
                assert(now.last() == self.server_type@[i as int]);
            }
            if i > 0 {
                text.append(", ");
            } else {
                assert(before.len() == 0);
                assert(text@ + self.server_type@[0].name_spec()
                    =~= self.server_type@[0].name_spec());
            }
            text.append(self.server_type[i].name());
        }
        assert(self.server_type@.take(self.server_type.len() as int) =~= self.server_type@);
        text
    }

    /// Players, capacity and queue, as text.
    pub fn players_cell(&self) -> (text: String)
        ensures
            text@ == players_text(self.players, self.max_players, self.player_queue),
    {
        let mut text = String::new();
        push_decimal(&mut text, self.players);
        text.append("/");
        push_decimal(&mut text, self.max_players);
        text.append(" ");
        if self.player_queue > 0 {
            text.append("(+");
            push_decimal(&mut text, self.player_queue);
            text.append(")");
        }
        assert(text@ =~= players_text(self.players, self.max_players, self.player_queue));
        text
    }

    /// The speed limit with its unit, as text.
    pub fn speed_limit_cell(&self) -> (text: String)
        ensures
            text@ == speed_limit_text(self.speed_limit),
    {
        let mut text = String::from_str(self.speed_limit.to_str());
        text.append(" ");
        if self.speed_limit != Speedlimit::Disabled {
            text.append("km/h");
        }
        assert(text@ =~= speed_limit_text(self.speed_limit));
        text
    }
}

/// The round-trip time, as text.
pub fn ping_cell(millis: u32) -> (text: String)
    ensures
        text@ == ping_text(millis),
{
    let mut text = String::new();
    push_decimal(&mut text, millis);
    text.append(" ms");
    assert(text@ =~= ping_text(millis));
    text
}

/// Turns every server that the API describes into what is shown of it.
pub fn servers_from(raw: Vec<RawServer>) -> (servers: Vec<Server>)
    ensures
        servers.deep_view() == raw.deep_view().map_values(|r: RawServerView| server_of(r)),
{
    let ghost all = raw.deep_view();
    let mut servers: Vec<Server> = Vec::new();
    let mut rest = raw;
    let mut taken: Vec<Server> = Vec::new();
    // Servers leave `rest` from its end, so they are collected in reverse.
    while rest.len() > 0
        invariant
            rest.deep_view() == all.take(rest.len() as int),
            taken@.len() + rest@.len() == all.len(),
            forall|k: int|
                0 <= k < taken@.len() ==> (#[trigger] taken@[k])@ == server_of(
                    all[all.len() - 1 - k],
                ),
        decreases rest.len(),
    {
        let ghost before = rest.deep_view();
        let value = rest.pop().unwrap();
        assert(value@ == before[before.len() - 1]);
        assert(rest.deep_view() =~= all.take(rest.len() as int));
        taken.push(Server::from(value));
    }
    while taken.len() > 0
        invariant
            taken@.len() + servers@.len() == all.len(),
            forall|k: int|
                0 <= k < taken@.len() ==> (#[trigger] taken@[k])@ == server_of(
                    all[all.len() - 1 - k],
                ),
            forall|k: int|
                0 <= k < servers@.len() ==> (#[trigger] servers@[k])@ == server_of(all[k]),
        decreases taken.len(),
    {
        let server = taken.pop().unwrap();
        servers.push(server);
    }
    assert(servers.deep_view() =~= all.map_values(|r: RawServerView| server_of(r)));
    servers
}

impl ServerInfoView {
    /// The server is of the game that was asked for, if one was.
    pub open spec fn wants_game(self, server: ServerView) -> bool {
        self.game matches Some(game) ==> server.game == game
    }

    /// The server is of a kind that was asked for; `All` asks for every kind.
    pub open spec fn wants_kind(self, server: ServerView) -> bool {
        self.server_type.contains(ServerInfoType::All) || exists|i: int|
            0 <= i < server.server_type.len() && self.server_type.contains(
                #[trigger] server.server_type[i],
            )
    }

    pub open spec fn wants(self, server: ServerView) -> bool {
        self.wants_game(server) && self.wants_kind(server)
    }

    /// The positions of the servers to show, in their order.
    pub open spec fn shown(self, servers: Seq<ServerView>) -> Seq<int>
        decreases servers.len(),
    {
        if servers.len() == 0 {
            Seq::empty()
        } else if self.wants(servers.last()) {
            self.shown(servers.drop_last()).push(servers.len() - 1)
        } else {
            self.shown(servers.drop_last())
        }
    }

    /// The titles of the columns: four that are always there, then those
    /// that were asked for.
    pub open spec fn header(self) -> Seq<Seq<char>> {
        seq!["Server Name"@, "Game"@, "Type"@, "Players"@] + (if self.speed_limit {
            seq!["Speed Limit"@]
        } else {
            Seq::empty()
        }) + (if self.ping {
            seq!["Ping"@]
        } else {
            Seq::empty()
        }) + (if self.additional {
            seq!["Additional"@]
        } else {
            Seq::empty()
        })
    }
}

/// The flag that the API writes as text.
pub open spec fn flag_of(text: Seq<char>) -> Option<bool> {
    if text == "true"@ {
        Some(true)
    } else if text == "false"@ {
        Some(false)
    } else {
        None
    }
}

/// Reads a flag that the API writes as the text `true` or `false`; any
/// other text is no flag.
pub fn deserialize_bool(text: &str) -> (flag: Option<bool>)
    ensures
        flag == flag_of(text@),
{
    proof {
        reveal_strlit("true");
        reveal_strlit("false");
    }
    if same_text(text, "true") {
        Some(true)
    } else if same_text(text, "false") {
        Some(false)
    } else {
        None
    }
}

/// Accepts the answer of the API to the request for its servers: an answer
/// with the error flag set is an error, any other gives the servers to
/// show, in the order of the answer.
pub fn get_servers(error: bool, response: Vec<RawServer>) -> (servers: Result<Vec<Server>, Error>)
    ensures
        error ==> servers == Err::<Vec<Server>, Error>(Error::TruckersMPError),
        !error ==> servers is Ok && servers.unwrap().deep_view() == response.deep_view().map_values(
            |r: RawServerView| server_of(r),
        ),
{
    if error {
        return Err(Error::TruckersMPError);
    }
    Ok(servers_from(response))
}

/// What is shown are exactly the servers that are wanted, each once and in
/// rising order of position.
pub proof fn lemma_shown_exact(options: ServerInfoView, servers: Seq<ServerView>)
    ensures
        forall|k: int|
            0 <= k < options.shown(servers).len() ==> 0 <= (#[trigger] options.shown(servers)[k])
                < servers.len() && options.wants(servers[options.shown(servers)[k]]),
        forall|j: int, k: int|
            0 <= j < k < options.shown(servers).len() ==> (#[trigger] options.shown(servers)[j])
                < (#[trigger] options.shown(servers)[k]),
        forall|i: int|
            0 <= i < servers.len() && options.wants(#[trigger] servers[i]) ==> options.shown(
                servers,
            ).contains(i),
    decreases servers.len(),
{
    let out = options.shown(servers);
    if servers.len() > 0 {
        let front = servers.drop_last();
        let kept = options.shown(front);
        lemma_shown_exact(options, front);
        assert forall|k: int| 0 <= k < out.len() implies 0 <= (#[trigger] out[k]) < servers.len()
            && options.wants(servers[out[k]]) by {
            if k < kept.len() {
                assert(0 <= kept[k] < front.len());
                assert(front[kept[k]] == servers[kept[k]]);
            }
        }
        assert forall|j: int, k: int| 0 <= j < k < out.len() implies (#[trigger] out[j]) < (
        #[trigger] out[k]) by {
            assert(kept[j] < front.len());
            if k < kept.len() {
                assert(kept[j] < kept[k]);
            }
        }
        assert forall|i: int| 0 <= i < servers.len() && options.wants(#[trigger] servers[i])
            implies out.contains(i) by {
            if i < front.len() {
                assert(front[i] == servers[i]);
                assert(kept.contains(i));
                let k = choose|k: int| 0 <= k < kept.len() && kept[k] == i;
                assert(out[k] == i);
            } else {
                assert(out[out.len() - 1] == i);
            }
        }
    }
}

impl ServerInfo {
    /// Whether a server passes the filters of the command.
    pub fn wants(&self, server: &Server) -> (wanted: bool)
        ensures
            wanted == self@.wants(server@),
    {
        let game_fits = match self.game {
            Some(game) => server.game == game,
            None => true,
        };
        if !game_fits {
            return false;
        }
        if contains_kind(&self.server_type, ServerInfoType::All) {
            return true;
        }
        for i in 0..server.server_type.len()
            invariant
                self@.wants_game(server@),
                !self.server_type@.contains(ServerInfoType::All),
                forall|k: int|
                    0 <= k < i ==> !self.server_type@.contains(#[trigger] server.server_type@[k]),
        {
            if contains_kind(&self.server_type, server.server_type[i]) {
                assert(self@.server_type.contains(server@.server_type[i as int]));
                return true;
            }
        }
        false
    }

    /// The positions of the servers that pass the filters, in their order.
    pub fn select(&self, servers: &Vec<Server>) -> (shown: Vec<usize>)
        ensures
            shown@.map_values(|i: usize| i as int) == self@.shown(servers.deep_view()),
    {
        let ghost all = servers.deep_view();
        let mut shown: Vec<usize> = Vec::new();
        assert(all.take(0) =~= Seq::<ServerView>::empty());
        for i in 0..servers.len()
            invariant
                all == servers.deep_view(),
                shown@.map_values(|i: usize| i as int) == self@.shown(all.take(i as int)),
        {
            assert(all.take(i + 1).drop_last() =~= all.take(i as int));
            assert(all.take(i + 1).last() == servers@[i as int]@);
            if self.wants(&servers[i]) {
                let ghost before = shown@;
                shown.push(i);
                assert(shown@.map_values(|i: usize| i as int) =~= before.map_values(
                    |i: usize| i as int,
                ).push(i as int));
            }
        }
        assert(all.take(servers.len() as int) =~= all);
        shown
    }

    /// The titles of the columns of the table.
    pub fn header(&self) -> (titles: Vec<&'static str>)
        ensures
            titles.deep_view() == self@.header(),
    {
        let mut titles: Vec<&'static str> = Vec::new();
        titles.push("Server Name");
        titles.push("Game");
        titles.push("Type");
        titles.push("Players");
        if self.speed_limit {
            titles.push("Speed Limit");
        }
        if self.ping {
            titles.push("Ping");
        }
        if self.additional {
            titles.push("Additional");
        }
        assert(titles.deep_view() =~= self@.header());
        titles
    }
}

} // verus!
