//! Session orchestration as a pure state machine: the lobby phase
//! (roster, host, joins and leaves, the host-triggered start) and the
//! decision each client message calls for. The program around it owns
//! the sockets; it performs each decision and hands the next message
//! back, so every rule here is checked while the I/O stays outside.

use vstd::prelude::*;
use crate::player::{InitPlayer, PlayerId, PlayerIdGenerator};

verus! {

/// What a lobby member can ask for.
#[derive(Clone, Copy, Debug, PartialEq, Eq, Structural)]
pub enum LobbyRequest {
    Start,
    Quit,
}

/// Everything a client can send the server over the wire.
#[derive(Debug)]
pub enum MessageToServer {
    Hello { name: String },
    Start,
    Action(crate::actions::GameActionType),
    Quit,
}

/// The spec-level shape of a client-to-server message.
#[verifier::ext_equal]
pub enum MessageToServerModel {
    Hello { name: Seq<char> },
    Start,
    Action(crate::actions::GameActionTypeModel),
    Quit,
}

impl MessageToServer {
    pub open spec fn model(&self) -> MessageToServerModel {
        match self {
            MessageToServer::Hello { name } => MessageToServerModel::Hello { name: name@ },
            MessageToServer::Start => MessageToServerModel::Start,
            MessageToServer::Action(a) => MessageToServerModel::Action(a.model()),
            MessageToServer::Quit => MessageToServerModel::Quit,
        }
    }
}

/// What the random pass of world generation decided, recorded as plain
/// values so that every participant can replay the same decoration:
/// per-tile terrain codes in column-major order, sparse resource and
/// vegetation marks (a tile index with a code), and river starts with
/// their directions.
#[derive(Clone, Debug)]
pub struct MapDressing {
    pub tile_codes: Vec<u8>,
    pub resources: Vec<(u16, u8)>,
    pub vegetation: Vec<(u16, u8)>,
    pub rivers: Vec<(i16, i16, u8)>,
}

/// The spec-level shape of recorded map dressing.
#[verifier::ext_equal]
pub struct MapDressingModel {
    pub tile_codes: Seq<u8>,
    pub resources: Seq<(u16, u8)>,
    pub vegetation: Seq<(u16, u8)>,
    pub rivers: Seq<(i16, i16, u8)>,
}

impl MapDressing {
    pub open spec fn model(&self) -> MapDressingModel {
        MapDressingModel {
            tile_codes: self.tile_codes@,
            resources: self.resources@,
            vegetation: self.vegetation@,
            rivers: self.rivers@,
        }
    }
}

/// The spec-level view of a roster: each member's name as characters,
/// with its id.
pub open spec fn spec_roster_view(l: Seq<(String, PlayerId)>) -> Seq<(Seq<char>, PlayerId)> {
    l.map_values(|e: (String, PlayerId)| (e.0@, e.1))
}

/// The lobby roster as broadcast to every member: who is enrolled, who
/// the receiver is, and who hosts.
#[derive(Clone, Debug)]
pub struct LobbyInfo {
    pub players: Vec<(String, PlayerId)>,
    pub you: PlayerId,
    pub host: PlayerId,
}

/// The spec-level shape of a roster broadcast.
#[verifier::ext_equal]
pub struct LobbyInfoModel {
    pub players: Seq<(Seq<char>, PlayerId)>,
    pub you: PlayerId,
    pub host: PlayerId,
}

impl LobbyInfo {
    pub open spec fn model(&self) -> LobbyInfoModel {
        LobbyInfoModel { players: spec_roster_view(self.players@), you: self.you, host: self.host }
    }
}

/// Everything the server can send a client over the wire. A new world
/// rides as its generation inputs — dimensions, roster and dressing —
/// which every client replays into the same world.
#[derive(Debug)]
pub enum MessageToClient {
    InitializeWorld {
        width: crate::map_position::MapUnit,
        height: crate::map_position::MapUnit,
        players: Vec<(String, PlayerId)>,
        dressing: MapDressing,
        player_id: PlayerId,
    },
    Event(crate::events::GameEventType),
    LobbyInfo(LobbyInfo),
    Kick,
}

/// The spec-level shape of a server-to-client message.
#[verifier::ext_equal]
pub enum MessageToClientModel {
    InitializeWorld {
        width: crate::map_position::MapUnit,
        height: crate::map_position::MapUnit,
        players: Seq<(Seq<char>, PlayerId)>,
        dressing: MapDressingModel,
        player_id: PlayerId,
    },
    Event(crate::events::GameEventTypeModel),
    LobbyInfo(LobbyInfoModel),
    Kick,
}

impl MessageToClient {
    pub open spec fn model(&self) -> MessageToClientModel {
        match self {
            MessageToClient::InitializeWorld { width, height, players, dressing, player_id } => {
                MessageToClientModel::InitializeWorld {
                    width: *width,
                    height: *height,
                    players: spec_roster_view(players@),
                    dressing: dressing.model(),
                    player_id: *player_id,
                }
            },
            MessageToClient::Event(e) => MessageToClientModel::Event(e.model()),
            MessageToClient::LobbyInfo(li) => MessageToClientModel::LobbyInfo(li.model()),
            MessageToClient::Kick => MessageToClientModel::Kick,
        }
    }
}

/// What the lobby decides a request means.
#[derive(Clone, Copy, Debug, PartialEq, Eq, Structural)]
pub enum LobbyStep {
    /// Nothing changes; a non-host asked to start.
    Ignored,
    /// The host started the match: generate the world from the roster
    /// and move every member into the game phase.
    GameStarts,
    /// The host left: kick every member, the lobby ends with no game.
    LobbyEnds,
    /// A non-host member left: drop it and re-broadcast the roster.
    PlayerLeaves,
}

/// The spec-level shape of the lobby roster.
pub struct LobbyModel {
    /// Members in join order; the first is the host.
    pub players: Seq<(PlayerId, Seq<char>)>,
    pub next_player: u8,
}

/// The roster without any entry for the given player.
pub open spec fn spec_lobby_without(
    players: Seq<(PlayerId, Seq<char>)>,
    who: PlayerId,
) -> Seq<(PlayerId, Seq<char>)> {
    players.filter(|e: (PlayerId, Seq<char>)| e.0 != who)
}

/// What one request from one member does to the roster.
pub open spec fn spec_lobby_step(m: LobbyModel, from: PlayerId, request: LobbyRequest) -> (
    LobbyModel,
    LobbyStep,
) {
    let is_host = m.players.len() > 0 && m.players[0].0 == from;
    match request {
        LobbyRequest::Start => if is_host {
            (m, LobbyStep::GameStarts)
        } else {
            (m, LobbyStep::Ignored)
        },
        LobbyRequest::Quit => if is_host {
            (m, LobbyStep::LobbyEnds)
        } else {
            (
                LobbyModel { players: spec_lobby_without(m.players, from), ..m },
                LobbyStep::PlayerLeaves,
            )
        },
    }
}

/// The pre-game phase: members join and leave until the host starts the
/// match; the roster then becomes the new world's player list.
pub struct Lobby {
    /// Members in join order; the first is the host.
    pub players: Vec<(PlayerId, String)>,
    pub id_generator: PlayerIdGenerator,
}

impl Lobby {
    pub open spec fn model(&self) -> LobbyModel {
        LobbyModel {
            players: self.players@.map_values(|e: (PlayerId, String)| (e.0, e.1@)),
            next_player: self.id_generator.next,
        }
    }

    pub fn new() -> (r: Self)
        ensures
            r.model().players == Seq::<(PlayerId, Seq<char>)>::empty(),
            r.model().next_player == 0,
    {
        let r = Lobby { players: Vec::new(), id_generator: PlayerIdGenerator::new() };
        proof {
            assert(r.model().players =~= Seq::<(PlayerId, Seq<char>)>::empty());
        }
        r
    }

    /// The host: the first member to have joined, while any remain.
    pub fn host(&self) -> (r: Option<PlayerId>)
        ensures
            match r {
                Some(h) => self.model().players.len() > 0 && self.model().players[0].0 == h,
                None => self.model().players.len() == 0,
            },
    {
        if self.players.len() > 0 {
            Some(self.players[0].0)
        } else {
            None
        }
    }

    /// Enroll a new member under a freshly minted player id.
    pub fn join(&mut self, name: String) -> (r: PlayerId)
        ensures
            r == PlayerId(crate::player::spec_gen_next_u8(old(self).model().next_player)),
            final(self).model().players == old(self).model().players.push((r, name@)),
            final(self).model().next_player == crate::player::spec_gen_next_u8(
                old(self).model().next_player,
            ),
    {
        let id = self.id_generator.next();
        self.players.push((id, name));
        proof {
            assert(self.model().players =~= old(self).model().players.push(
                (id, self.players@[self.players@.len() - 1].1@),
            ));
        }
        id
    }

    /// Decide what one member's request means, and apply it to the roster.
    pub fn handle(&mut self, from: PlayerId, request: LobbyRequest) -> (r: LobbyStep)
        ensures
            (final(self).model(), r) == spec_lobby_step(old(self).model(), from, request),
    {
        let is_host = match self.host() {
            Some(h) => h.0 == from.0,
            None => false,
        };
        match request {
            LobbyRequest::Start => {
                if is_host {
                    LobbyStep::GameStarts
                } else {
                    LobbyStep::Ignored
                }
            },
            LobbyRequest::Quit => {
                if is_host {
                    LobbyStep::LobbyEnds
                } else {
                    self.remove(from);
                    LobbyStep::PlayerLeaves
                }
            },
        }
    }

    /// Drop every entry for the given player, keeping join order.
    fn remove(&mut self, who: PlayerId)
        ensures
            final(self).model().players == spec_lobby_without(old(self).model().players, who),
            final(self).model().next_player == old(self).model().next_player,
    {
        let ghost orig = self.model().players;
        let mut kept: Vec<(PlayerId, String)> = Vec::new();
        let mut i: usize = 0;
        proof {
            assert(spec_lobby_without(orig.take(0), who) =~= kept@.map_values(
                |e: (PlayerId, String)| (e.0, e.1@),
            ));
        }
        while i < self.players.len()
            invariant
                0 <= i <= self.players@.len(),
                orig == self.players@.map_values(|e: (PlayerId, String)| (e.0, e.1@)),
                orig.len() == self.players@.len(),
                kept@.map_values(|e: (PlayerId, String)| (e.0, e.1@)) == spec_lobby_without(
                    orig.take(i as int),
                    who,
                ),
            decreases self.players@.len() - i,
        {
            let e = (self.players[i].0, self.players[i].1.clone());
            let ghost before = kept@.map_values(|x: (PlayerId, String)| (x.0, x.1@));
            proof {
                assert(orig.take(i + 1 as int).drop_last() == orig.take(i as int));
                reveal_with_fuel(Seq::filter, 2);
                assert(orig.take(i + 1 as int).last() == orig[i as int]);
            }
            if e.0.0 != who.0 {
                kept.push(e);
                proof {
                    assert(kept@.map_values(|x: (PlayerId, String)| (x.0, x.1@)) =~= before.push(
                        orig[i as int],
                    ));
                }
            } else {
                proof {
                    assert(orig[i as int].0 == who);
                }
            }
            i += 1;
        }
        proof {
            assert(orig.take(orig.len() as int) =~= orig);
        }
        self.players = kept;
    }

    /// The roster as the init list a new world is generated from.
    pub fn init_players(&self) -> (r: Vec<InitPlayer>)
        ensures
            r@.map_values(|p: InitPlayer| (p.id, p.name@)) == self.model().players,
    {
        let mut r: Vec<InitPlayer> = Vec::new();
        let mut i: usize = 0;
        proof {
            assert(r@.map_values(|p: InitPlayer| (p.id, p.name@)) =~= self.model().players.take(0));
        }
        while i < self.players.len()
            invariant
                0 <= i <= self.players@.len(),
                self.model().players.len() == self.players@.len(),
                r@.map_values(|p: InitPlayer| (p.id, p.name@)) == self.model().players.take(
                    i as int,
                ),
            decreases self.players@.len() - i,
        {
            let ghost before = r@.map_values(|p: InitPlayer| (p.id, p.name@));
            r.push(InitPlayer { id: self.players[i].0, name: self.players[i].1.clone() });
            proof {
                assert(r@.map_values(|p: InitPlayer| (p.id, p.name@)) =~= before.push(
                    self.model().players[i as int],
                ));
                assert(self.model().players.take(i + 1 as int) =~= self.model().players.take(
                    i as int,
                ).push(self.model().players[i as int]));
            }
            i += 1;
        }
        proof {
            assert(self.model().players.take(self.players@.len() as int) =~= self.model().players);
        }
        r
    }

    /// Every member's id and name, for a roster broadcast.
    pub fn roster(&self) -> (r: Vec<(PlayerId, String)>)
        ensures
            r@.map_values(|e: (PlayerId, String)| (e.0, e.1@)) == self.model().players,
    {
        let mut r: Vec<(PlayerId, String)> = Vec::new();
        let mut i: usize = 0;
        proof {
            assert(r@.map_values(|e: (PlayerId, String)| (e.0, e.1@)) =~= self.model().players.take(
                0,
            ));
        }
        while i < self.players.len()
            invariant
                0 <= i <= self.players@.len(),
                self.model().players.len() == self.players@.len(),
                r@.map_values(|e: (PlayerId, String)| (e.0, e.1@)) == self.model().players.take(
                    i as int,
                ),
            decreases self.players@.len() - i,
        {
            let ghost before = r@.map_values(|e: (PlayerId, String)| (e.0, e.1@));
            r.push((self.players[i].0, self.players[i].1.clone()));
            proof {
                assert(r@.map_values(|e: (PlayerId, String)| (e.0, e.1@)) =~= before.push(
                    self.model().players[i as int],
                ));
                assert(self.model().players.take(i + 1 as int) =~= self.model().players.take(
                    i as int,
                ).push(self.model().players[i as int]));
            }
            i += 1;
        }
        proof {
            assert(self.model().players.take(self.players@.len() as int) =~= self.model().players);
        }
        r
    }
}

} // verus!
