//! Server actor: the authoritative cross-player state. It is mutated only by
//! deferred operations consumed on the server's own loop — serialization is
//! structural, not lock-based — and exposes a narrow actor-facing surface:
//! status queries, login handshake and completion, disconnects, and partial
//! position, look and view-distance updates.

use vstd::prelude::*;
use tokio::sync::mpsc::UnboundedSender;
use crate::bridge::{ConnectionOp, ConnectionWrapper};

verus! {

/// A player's identity: the 128 bits of its unique id.
#[derive(Debug, Clone, Copy, PartialEq, Eq, Structural)]
pub struct PlayerId {
    pub bits: u128,
}

/// The difficulty levels, in their wire order.
#[derive(Debug, Clone, Copy, PartialEq, Eq, Structural)]
pub enum Difficulty {
    Peaceful,
    Easy,
    Normal,
    Hard,
}

/// The wire discriminant of each difficulty.
pub open spec fn difficulty_byte(d: Difficulty) -> u8 {
    match d {
        Difficulty::Peaceful => 0,
        Difficulty::Easy => 1,
        Difficulty::Normal => 2,
        Difficulty::Hard => 3,
    }
}

impl Difficulty {
    /// The byte this difficulty is transmitted as.
    pub fn to_byte(self) -> (r: u8)
        ensures
            r == difficulty_byte(self),
    {
        match self {
            Difficulty::Peaceful => 0,
            Difficulty::Easy => 1,
            Difficulty::Normal => 2,
            Difficulty::Hard => 3,
        }
    }
}

/// Name and protocol number of the server software's version.
#[derive(Debug, Clone)]
pub struct ServerVersion {
    pub name: String,
    pub protocol: i32,
}

impl ServerVersion {
    /// A version descriptor.
    pub fn new(name: String, protocol: i32) -> (r: ServerVersion)
        ensures
            r.name == name,
            r.protocol == protocol,
    {
        ServerVersion { name, protocol }
    }
}

/// A position in fixed-point world coordinates; the transport layer converts
/// the engine's floating-point coordinates to and from this form.
#[derive(Debug, Clone, Copy, PartialEq, Eq, Structural)]
pub struct Position {
    pub x: i64,
    pub y: i64,
    pub z: i64,
}

/// A view direction in fixed-point angle units; converted like `Position`.
#[derive(Debug, Clone, Copy, PartialEq, Eq, Structural)]
pub struct LookAngles {
    pub yaw: i32,
    pub pitch: i32,
}

/// One online player, with the fields the protocol serializes.
#[derive(Debug)]
pub struct Player {
    pub uuid: PlayerId,
    pub username: String,
    pub protocol_version: i32,
    pub entity_id: i32,
    pub game_mode: u8,
    pub dimension: i32,
    pub ability_flags: u8,
    pub position: Position,
    pub look: LookAngles,
    pub on_ground: bool,
    pub view_distance: u8,
    pub connection: ConnectionWrapper,
}

/// A deferred operation addressed to the server actor. Moved into the queue
/// once, executed once on the server's loop, then dropped.
#[derive(Debug)]
pub enum ServerOp {
    /// The server was pinged in the multiplayer menu.
    RequestStatus { protocol_id: i32, connection: ConnectionWrapper },
    /// A login start was received.
    PlayerLogin { username: String, protocol_version: i32, connection: ConnectionWrapper },
    /// A login completed: the player should join the world.
    LoginSuccess {
        username: String,
        uuid: PlayerId,
        protocol_version: i32,
        connection: ConnectionWrapper,
    },
    /// The player left or its connection broke.
    PlayerLeave { uuid: PlayerId },
    /// A partial position/orientation update; omitted parts mean "unchanged".
    UpdatePosLook {
        uuid: PlayerId,
        x: Option<i64>,
        y: Option<i64>,
        z: Option<i64>,
        yaw: Option<i32>,
        pitch: Option<i32>,
        on_ground: Option<bool>,
    },
    /// The player changed its render distance.
    UpdateViewDistance { uuid: PlayerId, view_distance: u8 },
}

/// Why a deferred operation could not be scheduled.
#[derive(Debug, Clone, Copy, PartialEq, Eq, Structural)]
pub enum TaskScheduleError {
    ThreadSendError,
}

/// Cloneable handle to the server actor's task queue: the only way other
/// actors request server-state mutations.
#[derive(Debug, Clone)]
pub struct ServerWrapper {
    link: UnboundedSender<ServerOp>,
}

impl ServerWrapper {
    /// Wraps the producer end of the server's task queue.
    pub fn new(link: UnboundedSender<ServerOp>) -> (r: ServerWrapper) {
        ServerWrapper { link }
    }

    /// Enqueues one deferred operation for the server actor; fails only when
    /// the server's queue is gone, and then reports the scheduling error.
    pub fn execute(&self, task: ServerOp) -> (r: Result<(), TaskScheduleError>)
        ensures
            r is Err ==> r == Err::<(), TaskScheduleError>(TaskScheduleError::ThreadSendError),
    {
        match self.link.send(task) {
            Ok(()) => Ok(()),
            Err(_) => Err(TaskScheduleError::ThreadSendError),
        }
    }
}

/// Read access to the authoritative server state.
pub trait ServerData {
    /// The ids of the players online, in join order.
    spec fn players_view(&self) -> Seq<PlayerId>;

    /// What the implementation keeps true of itself between calls.
    spec fn data_wf(&self) -> bool;

    /// Returns the number of players currently on the server.
    fn online_count(&self) -> (r: i32)
        requires
            self.data_wf(),
        ensures
            r as int == self.players_view().len(),
    ;

    /// Returns the player with the given id if present, otherwise `None`.
    fn player(&self, uuid: PlayerId) -> (r: Option<&Player>)
        ensures
            r matches Some(p) ==> p.uuid == uuid && self.players_view().contains(uuid),
            r is None ==> !self.players_view().contains(uuid),
    ;
}

/// The mutations the server actor accepts. Consumed exclusively via deferred
/// operations, never called directly from another execution context.
pub trait ServerActor {
    /// What the implementation keeps true of itself between calls.
    spec fn actor_wf(&self) -> bool;

    /// Called when the server's status is queried from the multiplayer menu.
    fn request_status(&self, protocol_id: i32, connection: ConnectionWrapper)
        requires
            self.actor_wf(),
    ;

    /// Called when a player tries to join, i.e. on a login start packet.
    fn player_login(
        &mut self,
        username: String,
        protocol_version: i32,
        client_connection: ConnectionWrapper,
    )
        requires
            old(self).actor_wf(),
        ensures
            final(self).actor_wf(),
    ;

    /// Called when a player completes login and should spawn in the world.
    fn login_success(
        &mut self,
        username: String,
        uuid: PlayerId,
        protocol_version: i32,
        client_connection: ConnectionWrapper,
    )
        requires
            old(self).actor_wf(),
        ensures
            final(self).actor_wf(),
    ;

    /// Called when a player loses its connection or leaves the game.
    fn player_leave(&mut self, uuid: PlayerId)
        requires
            old(self).actor_wf(),
        ensures
            final(self).actor_wf(),
    ;

    /// Called when a player moves or looks around; omitted parts are "no
    /// update sent".
    fn player_update_pos_look(
        &mut self,
        uuid: PlayerId,
        x: Option<i64>,
        y: Option<i64>,
        z: Option<i64>,
        yaw: Option<i32>,
        pitch: Option<i32>,
        on_ground: Option<bool>,
    )
        requires
            old(self).actor_wf(),
        ensures
            final(self).actor_wf(),
    ;

    /// Called when a player changes its render distance.
    fn player_update_view_distance(&mut self, uuid: PlayerId, view_distance: u8)
        requires
            old(self).actor_wf(),
        ensures
            final(self).actor_wf(),
    ;
}

/// The full actor-facing surface of a server.
pub trait MinecraftServer: ServerData + ServerActor {}

impl<T: ServerData + ServerActor> MinecraftServer for T {}

impl ServerActor for ServerWrapper {
    open spec fn actor_wf(&self) -> bool {
        true
    }

    fn request_status(&self, protocol_id: i32, connection: ConnectionWrapper) {
        let _ = self.link.send(ServerOp::RequestStatus { protocol_id, connection });
    }

    fn player_login(
        &mut self,
        username: String,
        protocol_version: i32,
        client_connection: ConnectionWrapper,
    ) {
        let _ = self.link.send(
            ServerOp::PlayerLogin { username, protocol_version, connection: client_connection },
        );
    }

    fn login_success(
        &mut self,
        username: String,
        uuid: PlayerId,
        protocol_version: i32,
        client_connection: ConnectionWrapper,
    ) {
        let _ = self.link.send(
            ServerOp::LoginSuccess {
                username,
                uuid,
                protocol_version,
                connection: client_connection,
            },
        );
    }

    fn player_leave(&mut self, uuid: PlayerId) {
        let _ = self.link.send(ServerOp::PlayerLeave { uuid });
    }

    fn player_update_pos_look(
        &mut self,
        uuid: PlayerId,
        x: Option<i64>,
        y: Option<i64>,
        z: Option<i64>,
        yaw: Option<i32>,
        pitch: Option<i32>,
        on_ground: Option<bool>,
    ) {
        let _ = self.link.send(ServerOp::UpdatePosLook { uuid, x, y, z, yaw, pitch, on_ground });
    }

    fn player_update_view_distance(&mut self, uuid: PlayerId, view_distance: u8) {
        let _ = self.link.send(ServerOp::UpdateViewDistance { uuid, view_distance });
    }
}

/// The answer to a status query: what the multiplayer menu shows.
#[derive(Debug, Clone)]
pub struct StatusResponse {
    pub version_name: String,
    pub protocol: i32,
    pub players_online: i32,
    pub max_players: i32,
}

/// A player after a partial position/orientation update: omitted parts mean
/// "unchanged".
pub open spec fn spec_apply_pos_look(
    p: Player,
    x: Option<i64>,
    y: Option<i64>,
    z: Option<i64>,
    yaw: Option<i32>,
    pitch: Option<i32>,
    on_ground: Option<bool>,
) -> Player {
    Player {
        position: Position {
            x: if x is Some {
                x->0
            } else {
                p.position.x
            },
            y: if y is Some {
                y->0
            } else {
                p.position.y
            },
            z: if z is Some {
                z->0
            } else {
                p.position.z
            },
        },
        look: LookAngles {
            yaw: if yaw is Some {
                yaw->0
            } else {
                p.look.yaw
            },
            pitch: if pitch is Some {
                pitch->0
            } else {
                p.look.pitch
            },
        },
        on_ground: if on_ground is Some {
            on_ground->0
        } else {
            p.on_ground
        },
        ..p
    }
}

/// The authoritative server state, owned by the server actor's loop.
#[derive(Debug)]
pub struct FalconServer {
    players: Vec<Player>,
    version: ServerVersion,
    max_players: i32,
    next_entity_id: i32,
}

impl FalconServer {
    /// The online players, in join order.
    pub closed spec fn players_seq(&self) -> Seq<Player> {
        self.players@
    }

    /// The online players' ids, in join order.
    pub open spec fn ids(&self) -> Seq<PlayerId> {
        self.players_seq().map_values(|p: Player| p.uuid)
    }

    /// The version descriptor the server was created with.
    pub closed spec fn spec_version(&self) -> ServerVersion {
        self.version
    }

    /// The player capacity the server was created with.
    pub closed spec fn spec_max(&self) -> i32 {
        self.max_players
    }

    /// Every online player has a distinct id, and the player list never
    /// exceeds the capacity. Established by `new`, preserved by every
    /// method.
    pub closed spec fn wf(&self) -> bool {
        &&& forall|i: int, j: int|
            0 <= i < j < self.players@.len() ==> (#[trigger] self.players@[i]).uuid != (
            #[trigger] self.players@[j]).uuid
        &&& self.players@.len() <= self.max_players as int
    }

    /// A fresh server with no players online.
    pub fn new(version: ServerVersion, max_players: i32) -> (r: FalconServer)
        requires
            0 <= max_players,
        ensures
            r.wf(),
            r.ids() == Seq::<PlayerId>::empty(),
            r.spec_version() == version,
            r.spec_max() == max_players,
    {
        let r = FalconServer { players: Vec::new(), version, max_players, next_entity_id: 0 };
        proof {
            assert(r.ids() =~= Seq::<PlayerId>::empty());
        }
        r
    }

    /// The player capacity.
    pub fn max_players(&self) -> (r: i32)
        ensures
            r == self.spec_max(),
    {
        self.max_players
    }

    /// Index of the player with this id, if online.
    fn find(&self, uuid: PlayerId) -> (r: Option<usize>)
        ensures
            r matches Some(i) ==> i < self.players_seq().len() && self.players_seq()[
                i as int
            ].uuid == uuid,
            r is None ==> !self.ids().contains(uuid),
    {
        let mut i: usize = 0;
        while i < self.players.len()
            invariant
                0 <= i <= self.players@.len(),
                forall|q: int| 0 <= q < i ==> (#[trigger] self.players@[q]).uuid != uuid,
            decreases self.players@.len() - i,
        {
            if self.players[i].uuid.bits == uuid.bits {
                return Some(i);
            }
            i += 1;
        }
        proof {
            if self.ids().contains(uuid) {
                let q = choose|q: int| 0 <= q < self.ids().len() && #[trigger] self.ids()[q] == uuid;
                assert(self.players@[q].uuid == uuid);
            }
        }
        None
    }

    /// The data of the status reply shown to a client speaking
    /// `protocol_id`: version, player count and capacity.
    pub fn status(&self, protocol_id: i32) -> (r: StatusResponse)
        requires
            self.wf(),
        ensures
            r.players_online as int == self.ids().len(),
            r.max_players == self.spec_max(),
            r.protocol == self.spec_version().protocol,
            r.version_name == self.spec_version().name,
    {
        let name = self.version.name.clone();
        StatusResponse {
            version_name: name,
            protocol: self.version.protocol,
            players_online: self.players.len() as i32,
            max_players: self.max_players,
        }
    }

    /// Whether another player fits.
    pub fn can_join(&self) -> (r: bool)
        requires
            self.wf(),
        ensures
            r == (self.ids().len() < self.spec_max() as int),
    {
        self.players.len() < self.max_players as usize
    }

    /// Adds the player on a completed login. A player already online, or a
    /// full server, leaves the state unchanged; a full server asks the
    /// client's connection to disconnect.
    pub fn add_player(
        &mut self,
        username: String,
        uuid: PlayerId,
        protocol_version: i32,
        client_connection: ConnectionWrapper,
    )
        requires
            old(self).wf(),
        ensures
            final(self).wf(),
            final(self).spec_version() == old(self).spec_version(),
            final(self).spec_max() == old(self).spec_max(),
            old(self).ids().contains(uuid) ==> final(self).players_seq() == old(
                self,
            ).players_seq(),
            !old(self).ids().contains(uuid) && old(self).ids().len() >= old(self).spec_max() as int
                ==> final(self).players_seq() == old(self).players_seq(),
            !old(self).ids().contains(uuid) && old(self).ids().len() < old(self).spec_max() as int
                ==> ({
                &&& final(self).players_seq() == old(self).players_seq().push(
                    final(self).players_seq().last(),
                )
                &&& final(self).players_seq().last().uuid == uuid
                &&& final(self).players_seq().last().username == username
                &&& final(self).players_seq().last().protocol_version == protocol_version
            }),
    {
        match self.find(uuid) {
            Some(i) => {
                proof {
                    assert(self.ids()[i as int] == uuid);
                }
            },
            None => {
                if self.players.len() >= self.max_players as usize {
                    client_connection.execute_sync(
                        ConnectionOp::Disconnect { reason: "server is full".to_string() },
                    );
                } else {
                    let entity_id = self.next_entity_id;
                    if self.next_entity_id == i32::MAX {
                        self.next_entity_id = 0;
                    } else {
                        self.next_entity_id = self.next_entity_id + 1;
                    }
                    let p = Player {
                        uuid,
                        username,
                        protocol_version,
                        entity_id,
                        game_mode: 0,
                        dimension: 0,
                        ability_flags: 0,
                        position: Position { x: 0, y: 0, z: 0 },
                        look: LookAngles { yaw: 0, pitch: 0 },
                        on_ground: false,
                        view_distance: 10,
                        connection: client_connection,
                    };
                    let ghost pre = self.players@;
                    proof {
                        assert forall|q: int| 0 <= q < pre.len() implies (#[trigger] pre[q]).uuid
                            != uuid by {
                            if pre[q].uuid == uuid {
                                assert(self.ids()[q] == uuid);
                            }
                        }
                    }
                    self.players.push(p);
                }
            },
        }
    }

    /// Removes the player on a disconnect; unknown ids are ignored (the
    /// connection may already have gone).
    pub fn remove_player(&mut self, uuid: PlayerId)
        requires
            old(self).wf(),
        ensures
            final(self).wf(),
            final(self).spec_version() == old(self).spec_version(),
            final(self).spec_max() == old(self).spec_max(),
            !old(self).ids().contains(uuid) ==> final(self).players_seq() == old(
                self,
            ).players_seq(),
            old(self).ids().contains(uuid) ==> final(self).ids().len() == old(self).ids().len()
                - 1,
            !final(self).ids().contains(uuid),
            forall|other: PlayerId|
                other != uuid ==> (final(self).ids().contains(other) <==> old(
                    self,
                ).ids().contains(other)),
    {
        let ghost pre = self.players@;
        match self.find(uuid) {
            None => {
                proof {
                    assert(!self.ids().contains(uuid));
                }
            },
            Some(i) => {
                proof {
                    assert(self.ids()[i as int] == uuid);
                }
                let _ = self.players.remove(i);
                proof {
                    let post = self.players@;
                    assert(post =~= pre.remove(i as int));
                    assert forall|q: int| 0 <= q < post.len() implies (#[trigger] post[q]).uuid
                        != uuid by {
                        if q < i {
                            assert(post[q] == pre[q]);
                            assert(pre[q].uuid != pre[i as int].uuid);
                        } else {
                            assert(post[q] == pre[q + 1]);
                            assert(pre[i as int].uuid != pre[q + 1].uuid);
                        }
                    }
                    if final(self).ids().contains(uuid) {
                        let q = choose|q: int|
                            0 <= q < post.len() && #[trigger] self.ids()[q] == uuid;
                        assert(post[q].uuid == uuid);
                    }
                    let pre_ids = pre.map_values(|p: Player| p.uuid);
                    assert forall|other: PlayerId| other != uuid implies (self.ids().contains(
                        other,
                    ) <==> pre_ids.contains(other)) by {
                        if self.ids().contains(other) {
                            let q = choose|q: int|
                                0 <= q < post.len() && #[trigger] self.ids()[q] == other;
                            if q < i {
                                assert(pre_ids[q] == other);
                            } else {
                                assert(pre_ids[q + 1] == other);
                            }
                        }
                        if pre_ids.contains(other) {
                            let q = choose|q: int|
                                0 <= q < pre.len() && #[trigger] pre_ids[q] == other;
                            if q < i {
                                assert(self.ids()[q] == other);
                            } else if q > i {
                                assert(self.ids()[q - 1] == other);
                            }
                        }
                    }
                }
            },
        }
    }

    /// Applies a partial position/orientation update to the player, leaving
    /// omitted parts and every other player untouched; unknown ids are
    /// ignored.
    pub fn update_pos_look(
        &mut self,
        uuid: PlayerId,
        x: Option<i64>,
        y: Option<i64>,
        z: Option<i64>,
        yaw: Option<i32>,
        pitch: Option<i32>,
        on_ground: Option<bool>,
    )
        requires
            old(self).wf(),
        ensures
            final(self).wf(),
            final(self).spec_version() == old(self).spec_version(),
            final(self).spec_max() == old(self).spec_max(),
            final(self).players_seq().len() == old(self).players_seq().len(),
            !old(self).ids().contains(uuid) ==> final(self).players_seq() == old(
                self,
            ).players_seq(),
            forall|i: int|
                0 <= i < old(self).players_seq().len() && (#[trigger] old(
                    self,
                ).players_seq()[i]).uuid != uuid ==> final(self).players_seq()[i] == old(
                    self,
                ).players_seq()[i],
            forall|i: int|
                0 <= i < old(self).players_seq().len() && (#[trigger] old(
                    self,
                ).players_seq()[i]).uuid == uuid ==> final(self).players_seq()[i]
                    == spec_apply_pos_look(
                    old(self).players_seq()[i],
                    x,
                    y,
                    z,
                    yaw,
                    pitch,
                    on_ground,
                ),
    {
        let ghost pre = self.players@;
        match self.find(uuid) {
            None => {
                proof {
                    assert forall|i: int| 0 <= i < pre.len() implies (#[trigger] pre[i]).uuid
                        != uuid by {
                        if pre[i].uuid == uuid {
                            assert(self.ids()[i] == uuid);
                        }
                    }
                }
            },
            Some(i) => {
                proof {
                    assert(self.ids()[i as int] == uuid);
                }
                let mut p = self.players.remove(i);
                let ghost orig = p;
                match x {
                    Some(v) => p.position.x = v,
                    None => {},
                }
                match y {
                    Some(v) => p.position.y = v,
                    None => {},
                }
                match z {
                    Some(v) => p.position.z = v,
                    None => {},
                }
                match yaw {
                    Some(v) => p.look.yaw = v,
                    None => {},
                }
                match pitch {
                    Some(v) => p.look.pitch = v,
                    None => {},
                }
                match on_ground {
                    Some(v) => p.on_ground = v,
                    None => {},
                }
                proof {
                    assert(p == spec_apply_pos_look(orig, x, y, z, yaw, pitch, on_ground));
                }
                self.players.insert(i, p);
                proof {
                    assert(self.players@ =~= pre.update(
                        i as int,
                        spec_apply_pos_look(pre[i as int], x, y, z, yaw, pitch, on_ground),
                    ));
                    assert forall|q: int|
                        0 <= q < pre.len() && (#[trigger] pre[q]).uuid == uuid implies q
                        == i as int by {
                        if q != i {
                            assert(pre[q].uuid != pre[i as int].uuid);
                        }
                    }
                }
            },
        }
    }

    /// Applies a view-distance change to the player; unknown ids are
    /// ignored.
    pub fn update_view_distance(&mut self, uuid: PlayerId, view_distance: u8)
        requires
            old(self).wf(),
        ensures
            final(self).wf(),
            final(self).spec_version() == old(self).spec_version(),
            final(self).spec_max() == old(self).spec_max(),
            final(self).players_seq().len() == old(self).players_seq().len(),
            !old(self).ids().contains(uuid) ==> final(self).players_seq() == old(
                self,
            ).players_seq(),
            forall|i: int|
                0 <= i < old(self).players_seq().len() && (#[trigger] old(
                    self,
                ).players_seq()[i]).uuid != uuid ==> final(self).players_seq()[i] == old(
                    self,
                ).players_seq()[i],
            forall|i: int|
                0 <= i < old(self).players_seq().len() && (#[trigger] old(
                    self,
                ).players_seq()[i]).uuid == uuid ==> final(self).players_seq()[i] == (Player {
                    view_distance,
                    ..old(self).players_seq()[i]
                }),
    {
        let ghost pre = self.players@;
        match self.find(uuid) {
            None => {
                proof {
                    assert forall|i: int| 0 <= i < pre.len() implies (#[trigger] pre[i]).uuid
                        != uuid by {
                        if pre[i].uuid == uuid {
                            assert(self.ids()[i] == uuid);
                        }
                    }
                }
            },
            Some(i) => {
                proof {
                    assert(self.ids()[i as int] == uuid);
                }
                let mut p = self.players.remove(i);
                p.view_distance = view_distance;
                self.players.insert(i, p);
                proof {
                    assert(self.players@ =~= pre.update(
                        i as int,
                        Player { view_distance, ..pre[i as int] },
                    ));
                    assert forall|q: int|
                        0 <= q < pre.len() && (#[trigger] pre[q]).uuid == uuid implies q
                        == i as int by {
                        if q != i {
                            assert(pre[q].uuid != pre[i as int].uuid);
                        }
                    }
                }
            },
        }
    }

    /// A login start checks capacity only: a full server asks the client's
    /// connection to disconnect, and nothing changes here. The login itself
    /// completes later through `add_player`.
    pub fn login_request(&self, client_connection: &ConnectionWrapper)
        requires
            self.wf(),
    {
        if !self.can_join() {
            client_connection.execute_sync(
                ConnectionOp::Disconnect { reason: "server is full".to_string() },
            );
        }
    }

    /// Executes one deferred operation on this actor — the consumer side of
    /// the task bridge. Each operation has the effect of the method it
    /// dispatches to; a status query alone returns a value: its reply, with
    /// the connection to answer on, for the transport layer to serialize and
    /// send.
    pub fn run_op(&mut self, op: ServerOp) -> (r: Option<(StatusResponse, ConnectionWrapper)>)
        requires
            old(self).wf(),
        ensures
            final(self).wf(),
            final(self).spec_version() == old(self).spec_version(),
            final(self).spec_max() == old(self).spec_max(),
            match op {
                ServerOp::RequestStatus { protocol_id, connection } => {
                    &&& r is Some
                    &&& (r->Some_0).0.players_online as int == old(self).ids().len()
                    &&& (r->Some_0).0.max_players == old(self).spec_max()
                    &&& (r->Some_0).0.protocol == old(self).spec_version().protocol
                    &&& (r->Some_0).0.version_name == old(self).spec_version().name
                    &&& (r->Some_0).1 == connection
                    &&& *final(self) == *old(self)
                },
                ServerOp::PlayerLogin { username, protocol_version, connection } => {
                    &&& r is None
                    &&& *final(self) == *old(self)
                },
                ServerOp::LoginSuccess { username, uuid, protocol_version, connection } => {
                    &&& r is None
                    &&& (old(self).ids().contains(uuid) ==> final(self).players_seq() == old(
                        self,
                    ).players_seq())
                    &&& (!old(self).ids().contains(uuid) && old(self).ids().len() >= old(
                        self,
                    ).spec_max() as int ==> final(self).players_seq() == old(self).players_seq())
                    &&& (!old(self).ids().contains(uuid) && old(self).ids().len() < old(
                        self,
                    ).spec_max() as int ==> {
                        &&& final(self).players_seq() == old(self).players_seq().push(
                            final(self).players_seq().last(),
                        )
                        &&& final(self).players_seq().last().uuid == uuid
                        &&& final(self).players_seq().last().username == username
                        &&& final(self).players_seq().last().protocol_version == protocol_version
                    })
                },
                ServerOp::PlayerLeave { uuid } => {
                    &&& r is None
                    &&& (!old(self).ids().contains(uuid) ==> final(self).players_seq() == old(
                        self,
                    ).players_seq())
                    &&& (old(self).ids().contains(uuid) ==> final(self).ids().len() == old(
                        self,
                    ).ids().len() - 1)
                    &&& !final(self).ids().contains(uuid)
                    &&& forall|other: PlayerId|
                        other != uuid ==> (final(self).ids().contains(other) <==> old(
                            self,
                        ).ids().contains(other))
                },
                ServerOp::UpdatePosLook { uuid, x, y, z, yaw, pitch, on_ground } => {
                    &&& r is None
                    &&& final(self).players_seq().len() == old(self).players_seq().len()
                    &&& (!old(self).ids().contains(uuid) ==> final(self).players_seq() == old(
                        self,
                    ).players_seq())
                    &&& forall|i: int|
                        0 <= i < old(self).players_seq().len() && (#[trigger] old(
                            self,
                        ).players_seq()[i]).uuid != uuid ==> final(self).players_seq()[i] == old(
                            self,
                        ).players_seq()[i]
                    &&& forall|i: int|
                        0 <= i < old(self).players_seq().len() && (#[trigger] old(
                            self,
                        ).players_seq()[i]).uuid == uuid ==> final(self).players_seq()[i]
                            == spec_apply_pos_look(
                            old(self).players_seq()[i],
                            x,
                            y,
                            z,
                            yaw,
                            pitch,
                            on_ground,
                        )
                },
                ServerOp::UpdateViewDistance { uuid, view_distance } => {
                    &&& r is None
                    &&& final(self).players_seq().len() == old(self).players_seq().len()
                    &&& (!old(self).ids().contains(uuid) ==> final(self).players_seq() == old(
                        self,
                    ).players_seq())
                    &&& forall|i: int|
                        0 <= i < old(self).players_seq().len() && (#[trigger] old(
                            self,
                        ).players_seq()[i]).uuid != uuid ==> final(self).players_seq()[i] == old(
                            self,
                        ).players_seq()[i]
                    &&& forall|i: int|
                        0 <= i < old(self).players_seq().len() && (#[trigger] old(
                            self,
                        ).players_seq()[i]).uuid == uuid ==> final(self).players_seq()[i]
                            == (Player { view_distance, ..old(self).players_seq()[i] })
                },
            },
    {
        match op {
            ServerOp::RequestStatus { protocol_id, connection } => {
                let st = self.status(protocol_id);
                Some((st, connection))
            },
            ServerOp::PlayerLogin { username, protocol_version, connection } => {
                self.login_request(&connection);
                None
            },
            ServerOp::LoginSuccess { username, uuid, protocol_version, connection } => {
                self.add_player(username, uuid, protocol_version, connection);
                None
            },
            ServerOp::PlayerLeave { uuid } => {
                self.remove_player(uuid);
                None
            },
            ServerOp::UpdatePosLook { uuid, x, y, z, yaw, pitch, on_ground } => {
                self.update_pos_look(uuid, x, y, z, yaw, pitch, on_ground);
                None
            },
            ServerOp::UpdateViewDistance { uuid, view_distance } => {
                self.update_view_distance(uuid, view_distance);
                None
            },
        }
    }
}

impl ServerData for FalconServer {
    open spec fn players_view(&self) -> Seq<PlayerId> {
        self.ids()
    }

    open spec fn data_wf(&self) -> bool {
        self.wf()
    }

    fn online_count(&self) -> (r: i32) {
        self.players.len() as i32
    }

    fn player(&self, uuid: PlayerId) -> (r: Option<&Player>) {
        match self.find(uuid) {
            Some(i) => {
                let p = &self.players[i];
                proof {
                    assert(self.ids()[i as int] == uuid);
                }
                Some(p)
            },
            None => None,
        }
    }
}

impl ServerActor for FalconServer {
    open spec fn actor_wf(&self) -> bool {
        self.wf()
    }

    /// The reply itself is data for the transport layer: it serializes what
    /// `status` returns and writes it on the querying connection.
    fn request_status(&self, protocol_id: i32, connection: ConnectionWrapper) {
        let _ = self.status(protocol_id);
    }

    /// A login start only checks capacity here; a full server asks the
    /// client's connection to disconnect. The login itself completes through
    /// `login_success`.
    fn player_login(
        &mut self,
        username: String,
        protocol_version: i32,
        client_connection: ConnectionWrapper,
    ) {
        self.login_request(&client_connection);
    }

    fn login_success(
        &mut self,
        username: String,
        uuid: PlayerId,
        protocol_version: i32,
        client_connection: ConnectionWrapper,
    ) {
        self.add_player(username, uuid, protocol_version, client_connection);
    }

    fn player_leave(&mut self, uuid: PlayerId) {
        self.remove_player(uuid);
    }

    fn player_update_pos_look(
        &mut self,
        uuid: PlayerId,
        x: Option<i64>,
        y: Option<i64>,
        z: Option<i64>,
        yaw: Option<i32>,
        pitch: Option<i32>,
        on_ground: Option<bool>,
    ) {
        self.update_pos_look(uuid, x, y, z, yaw, pitch, on_ground);
    }

    fn player_update_view_distance(&mut self, uuid: PlayerId, view_distance: u8) {
        self.update_view_distance(uuid, view_distance);
    }
}

} // verus!
