use falcon_net::bridge::{ConnectionOp, ConnectionWrapper, TaskQueue};
use falcon_net::codec::ReadError;
use falcon_net::connection::FalconConnection;
use falcon_net::frame::write_frame;
use falcon_net::network::{NetworkState, Phase, UNKNOWN_PROTOCOL};
use falcon_net::packets::{HandshakePacket, JoinGamePacket};
use falcon_net::server::{
    Difficulty, FalconServer, PlayerId, ServerActor, ServerData, ServerOp, ServerVersion,
    ServerWrapper,
};
use falcon_net::version::v1_13;
use falcon_net::version::v1_13_2::{LoginPackets, PacketList};
use tokio::sync::mpsc::unbounded_channel;

#[test]
fn connection_starts_in_handshake() {
    let conn = FalconConnection::new(UNKNOWN_PROTOCOL);
    assert_eq!(conn.state().phase, Phase::Handshake);
    assert_eq!(conn.state().protocol, -1);
    assert_eq!(conn.state().keepalive, 0);
}

#[test]
fn zero_read_forces_sticky_disconnect() {
    let mut conn = FalconConnection::new(404);
    let (frames, err) = conn.on_read(&[]);
    assert!(frames.is_empty());
    assert!(err.is_none());
    assert_eq!(conn.state().phase, Phase::Disconnected);
    // No subsequent operation moves it to any other phase.
    assert!(!conn.state_mut().try_advance(Phase::Status));
    assert!(!conn.state_mut().try_advance(Phase::Login));
    assert!(!conn.state_mut().try_advance(Phase::Play));
    assert_eq!(conn.state().phase, Phase::Disconnected);
    conn.run_op(ConnectionOp::SendPacket { packet_id: 0, payload: vec![] });
    assert_eq!(conn.state().phase, Phase::Disconnected);
    // A disconnected connection buffers no new packets.
    assert!(conn.outgoing().is_empty());
}

#[test]
fn phase_transitions_are_monotonic() {
    let mut st = NetworkState::new(404);
    assert!(!st.try_advance(Phase::Play));
    assert!(st.try_advance(Phase::Login));
    assert!(!st.try_advance(Phase::Handshake));
    assert!(!st.try_advance(Phase::Status));
    assert!(st.try_advance(Phase::Play));
    assert!(st.try_advance(Phase::Disconnected));
    assert!(!st.try_advance(Phase::Play));
    assert_eq!(st.phase, Phase::Disconnected);
}

#[test]
fn split_frame_dispatches_exactly_once() {
    // Frame for packet id 0x00 with an empty payload: length 1, id 0.
    let mut buf: Vec<u8> = Vec::new();
    write_frame(&mut buf, 0x00, &[]);
    assert_eq!(buf, vec![0x01, 0x00]);

    let mut conn = FalconConnection::new(404);
    // First read delivers only the length byte: nothing is dispatched.
    let (frames, err) = conn.on_read(&buf[..1]);
    assert!(frames.is_empty());
    assert!(err.is_none());
    assert_eq!(conn.state().phase, Phase::Handshake);
    // The remainder completes the frame: exactly one dispatch.
    let (frames, err) = conn.on_read(&buf[1..]);
    assert!(err.is_none());
    assert_eq!(frames.len(), 1);
    assert_eq!(frames[0].packet_id, 0x00);
    assert!(frames[0].payload.is_empty());
    // And nothing is left buffered: a further read dispatches nothing new.
    let (frames, err) = conn.on_read(&[0x01]);
    assert!(frames.is_empty());
    assert!(err.is_none());
}

#[test]
fn frames_dispatch_in_arrival_order() {
    let mut buf: Vec<u8> = Vec::new();
    write_frame(&mut buf, 0x01, &[0xAA]);
    write_frame(&mut buf, 0x02, &[0xBB, 0xCC]);
    let mut conn = FalconConnection::new(404);
    let (frames, err) = conn.on_read(&buf);
    assert!(err.is_none());
    assert_eq!(frames.len(), 2);
    assert_eq!(frames[0].packet_id, 0x01);
    assert_eq!(frames[0].payload, vec![0xAA]);
    assert_eq!(frames[1].packet_id, 0x02);
    assert_eq!(frames[1].payload, vec![0xBB, 0xCC]);
}

#[test]
fn hopeless_frame_reports_and_disconnects() {
    // A length prefix of five continuation bytes can never become a frame.
    let mut conn = FalconConnection::new(404);
    let (frames, err) = conn.on_read(&[0x80, 0x80, 0x80, 0x80, 0x80]);
    assert!(frames.is_empty());
    assert_eq!(err, Some(ReadError::VarIntTooLong));
    assert_eq!(conn.state().phase, Phase::Disconnected);
}

#[test]
fn connection_ops_apply_in_order() {
    let mut conn = FalconConnection::new(404);
    conn.run_op(ConnectionOp::ResetKeepAlive { time: 42 });
    assert_eq!(conn.state().keepalive, 42);
    conn.run_op(ConnectionOp::SendPacket { packet_id: 0x00, payload: vec![] });
    assert_eq!(conn.outgoing().as_slice(), &[0x01, 0x00]);
    conn.run_op(ConnectionOp::Disconnect { reason: "bye".to_string() });
    assert_eq!(conn.state().phase, Phase::Disconnected);
    // The buffered frame still drains before the connection closes.
    assert!(!conn.should_close());
    conn.consume_output(2);
    assert!(conn.should_close());
}

#[test]
fn task_queue_is_fifo() {
    let mut q: TaskQueue<&str> = TaskQueue::new();
    q.enqueue("a");
    q.enqueue("b");
    q.enqueue("c");
    assert_eq!(q.len(), 3);
    assert_eq!(q.dequeue(), Some("a"));
    assert_eq!(q.dequeue(), Some("b"));
    assert_eq!(q.dequeue(), Some("c"));
    assert_eq!(q.dequeue(), None);
}

#[test]
fn interleaved_producers_keep_their_own_order() {
    // Two handles interleave; each handle's own sequence is preserved.
    let mut q: TaskQueue<(&str, u32)> = TaskQueue::new();
    q.enqueue(("a", 1));
    q.enqueue(("b", 1));
    q.enqueue(("a", 2));
    q.enqueue(("b", 2));
    q.enqueue(("a", 3));
    let mut a_seen: Vec<u32> = Vec::new();
    let mut b_seen: Vec<u32> = Vec::new();
    while let Some((who, n)) = q.dequeue() {
        if who == "a" {
            a_seen.push(n);
        } else {
            b_seen.push(n);
        }
    }
    assert_eq!(a_seen, vec![1, 2, 3]);
    assert_eq!(b_seen, vec![1, 2]);
}

#[test]
fn wrapper_delivers_ops_in_submission_order() {
    let (tx, mut rx) = unbounded_channel();
    let wrapper = ConnectionWrapper::new(tx);
    wrapper.reset_keep_alive(1);
    wrapper.send_packet(0x07, vec![0xEE]);
    wrapper.execute_sync(ConnectionOp::Disconnect { reason: "done".to_string() });
    assert!(matches!(rx.try_recv().unwrap(), ConnectionOp::ResetKeepAlive { time: 1 }));
    match rx.try_recv().unwrap() {
        ConnectionOp::SendPacket { packet_id, payload } => {
            assert_eq!(packet_id, 0x07);
            assert_eq!(payload, vec![0xEE]);
        },
        _ => panic!("expected a send"),
    }
    assert!(matches!(rx.try_recv().unwrap(), ConnectionOp::Disconnect { .. }));
    assert!(rx.try_recv().is_err());
}

fn new_wrapper() -> ConnectionWrapper {
    let (tx, _rx) = unbounded_channel();
    ConnectionWrapper::new(tx)
}

#[test]
fn server_tracks_players() {
    let mut server = FalconServer::new(ServerVersion::new("1.13.2".to_string(), 404), 10);
    assert_eq!(server.online_count(), 0);
    let id = PlayerId { bits: 7 };
    server.add_player("steve".to_string(), id, 404, new_wrapper());
    assert_eq!(server.online_count(), 1);
    let p = server.player(id).unwrap();
    assert_eq!(p.username, "steve");
    assert_eq!(p.uuid, id);
    // A second login with the same id changes nothing.
    server.add_player("steve2".to_string(), id, 404, new_wrapper());
    assert_eq!(server.online_count(), 1);
    assert_eq!(server.player(id).unwrap().username, "steve");
    server.remove_player(id);
    assert_eq!(server.online_count(), 0);
    assert!(server.player(id).is_none());
}

#[test]
fn full_server_rejects_login_with_disconnect() {
    let mut server = FalconServer::new(ServerVersion::new("1.13.2".to_string(), 404), 1);
    server.add_player("one".to_string(), PlayerId { bits: 1 }, 404, new_wrapper());
    assert!(!server.can_join());
    let (tx, mut rx) = unbounded_channel();
    server.add_player("two".to_string(), PlayerId { bits: 2 }, 404, ConnectionWrapper::new(tx));
    assert_eq!(server.online_count(), 1);
    assert!(matches!(rx.try_recv().unwrap(), ConnectionOp::Disconnect { .. }));
}

#[test]
fn partial_position_update_keeps_omitted_fields() {
    let mut server = FalconServer::new(ServerVersion::new("1.13.2".to_string(), 404), 10);
    let id = PlayerId { bits: 3 };
    server.add_player("alex".to_string(), id, 404, new_wrapper());
    server.update_pos_look(id, Some(100), None, Some(-5), None, Some(9), Some(true));
    let p = server.player(id).unwrap();
    assert_eq!(p.position.x, 100);
    assert_eq!(p.position.y, 0);
    assert_eq!(p.position.z, -5);
    assert_eq!(p.look.yaw, 0);
    assert_eq!(p.look.pitch, 9);
    assert!(p.on_ground);
    server.update_view_distance(id, 4);
    assert_eq!(server.player(id).unwrap().view_distance, 4);
    // An unknown id is ignored.
    server.update_view_distance(PlayerId { bits: 99 }, 2);
    assert_eq!(server.online_count(), 1);
}

#[test]
fn status_reports_count_and_version() {
    let mut server = FalconServer::new(ServerVersion::new("1.13.2".to_string(), 404), 20);
    server.add_player("a".to_string(), PlayerId { bits: 1 }, 404, new_wrapper());
    server.add_player("b".to_string(), PlayerId { bits: 2 }, 404, new_wrapper());
    let st = server.status(404);
    assert_eq!(st.players_online, 2);
    assert_eq!(st.max_players, 20);
    assert_eq!(st.protocol, 404);
    assert_eq!(st.version_name, "1.13.2");
}

#[test]
fn run_op_drives_the_actor() {
    let mut server = FalconServer::new(ServerVersion::new("1.13.2".to_string(), 404), 20);
    let id = PlayerId { bits: 11 };
    let none = server.run_op(ServerOp::LoginSuccess {
        username: "zoe".to_string(),
        uuid: id,
        protocol_version: 404,
        connection: new_wrapper(),
    });
    assert!(none.is_none());
    let (st, _reply_to) = server
        .run_op(ServerOp::RequestStatus { protocol_id: 404, connection: new_wrapper() })
        .unwrap();
    assert_eq!(st.players_online, 1);
    let none = server.run_op(ServerOp::PlayerLeave { uuid: id });
    assert!(none.is_none());
    assert_eq!(server.online_count(), 0);
}

#[test]
fn server_wrapper_forwards_ops_in_order() {
    let (tx, mut rx) = unbounded_channel();
    let mut wrapper = ServerWrapper::new(tx);
    wrapper.player_login("amy".to_string(), 404, new_wrapper());
    wrapper.player_leave(PlayerId { bits: 5 });
    assert!(wrapper.execute(ServerOp::PlayerLeave { uuid: PlayerId { bits: 6 } }).is_ok());
    assert!(matches!(rx.try_recv().unwrap(), ServerOp::PlayerLogin { .. }));
    assert!(matches!(rx.try_recv().unwrap(), ServerOp::PlayerLeave { uuid: PlayerId { bits: 5 } }));
    assert!(matches!(rx.try_recv().unwrap(), ServerOp::PlayerLeave { uuid: PlayerId { bits: 6 } }));
}

#[test]
fn login_start_parses_in_login_phase() {
    let mut st = NetworkState::new(404);
    st.try_advance(Phase::Login);
    // Payload of a login start: a length-prefixed username.
    let payload = [0x03u8, b'b', b'o', b'b'];
    let packet = PacketList::from(0x00, &st, &payload).unwrap().unwrap();
    let PacketList::Login(LoginPackets::LoginStart(p)) = packet;
    assert_eq!(p.name, "bob");
}

#[test]
fn login_start_ignored_outside_login_phase() {
    let st = NetworkState::new(404);
    let payload = [0x03u8, b'b', b'o', b'b'];
    assert!(PacketList::from(0x00, &st, &payload).unwrap().is_none());
    let mut login = NetworkState::new(404);
    login.try_advance(Phase::Login);
    assert!(PacketList::from(0x55, &login, &payload).unwrap().is_none());
}

#[test]
fn login_start_rejects_oversized_username() {
    let mut st = NetworkState::new(404);
    st.try_advance(Phase::Login);
    let mut payload = vec![17u8];
    payload.extend_from_slice(&[b'x'; 17]);
    assert!(matches!(
        PacketList::from(0x00, &st, &payload),
        Err(ReadError::StringTooLong)
    ));
}

#[test]
fn join_game_encodes_exact_bytes() {
    let packet = JoinGamePacket::new(1, 0, 0, Difficulty::Normal, 20, "flat".to_string(), false);
    let bytes = packet.encode().unwrap();
    assert_eq!(
        bytes,
        vec![
            0x00, 0x00, 0x00, 0x01, // entity id
            0x00, // game mode
            0x00, 0x00, 0x00, 0x00, // dimension
            0x02, // difficulty
            0x14, // max players
            0x04, b'f', b'l', b'a', b't', // level type
            0x00, // reduced debug
        ]
    );
}

#[test]
fn join_game_rejects_long_level_type() {
    let packet = JoinGamePacket::new(
        1,
        0,
        0,
        Difficulty::Peaceful,
        20,
        "seventeen-chars-x".to_string(),
        false,
    );
    assert!(packet.encode().is_err());
}

#[test]
fn packet_send_frames_through_the_bridge() {
    let (tx, mut rx) = unbounded_channel();
    let mut server = FalconServer::new(ServerVersion::new("1.13".to_string(), 393), 20);
    let id = PlayerId { bits: 1 };
    server.add_player("kim".to_string(), id, 393, ConnectionWrapper::new(tx));
    let player = server.player(id).unwrap();

    let sender = v1_13::PacketSend;
    sender
        .join_game(player, Difficulty::Easy, 20, "default".to_string(), false)
        .unwrap();
    sender.keep_alive(player, 99);

    // join game, then the keep-alive pair, in submission order.
    match rx.try_recv().unwrap() {
        ConnectionOp::SendPacket { packet_id, .. } => assert_eq!(packet_id, 0x25),
        _ => panic!("expected a send"),
    }
    assert!(matches!(rx.try_recv().unwrap(), ConnectionOp::ResetKeepAlive { time: 99 }));
    match rx.try_recv().unwrap() {
        ConnectionOp::SendPacket { packet_id, payload } => {
            assert_eq!(packet_id, 0x21);
            assert_eq!(payload, vec![0, 0, 0, 0, 0, 0, 0, 99]);
        },
        _ => panic!("expected a send"),
    }
}

#[test]
fn end_to_end_login_start_over_the_wire() {
    // Build the login-start frame, feed it split across two reads, resolve
    // the packet, and apply the resulting login on the server.
    let mut frame_bytes: Vec<u8> = Vec::new();
    let payload = [0x03u8, b'b', b'o', b'b'];
    write_frame(&mut frame_bytes, 0x00, &payload);

    let mut conn = FalconConnection::new(404);
    assert!(conn.state_mut().try_advance(Phase::Login));
    let (frames, err) = conn.on_read(&frame_bytes[..2]);
    assert!(frames.is_empty() && err.is_none());
    let (frames, err) = conn.on_read(&frame_bytes[2..]);
    assert!(err.is_none());
    assert_eq!(frames.len(), 1);

    let packet = PacketList::from(frames[0].packet_id, conn.state(), &frames[0].payload)
        .unwrap()
        .unwrap();
    let PacketList::Login(LoginPackets::LoginStart(login)) = packet;

    let mut server = FalconServer::new(ServerVersion::new("1.13.2".to_string(), 404), 20);
    server.login_success(login.name, PlayerId { bits: 42 }, 404, new_wrapper());
    assert_eq!(server.online_count(), 1);
    assert_eq!(server.player(PlayerId { bits: 42 }).unwrap().username, "bob");
}

#[test]
fn handshake_round_trips() {
    let hs = HandshakePacket {
        protocol_version: 404,
        server_address: "mc.example.org".to_string(),
        server_port: 25565,
        next_state: 2,
    };
    let mut buf: Vec<u8> = Vec::new();
    hs.write(&mut buf).unwrap();
    let (back, n) = HandshakePacket::read(&buf).unwrap();
    assert_eq!(n, buf.len());
    assert_eq!(back.protocol_version, 404);
    assert_eq!(back.server_address, "mc.example.org");
    assert_eq!(back.server_port, 25565);
    assert_eq!(back.next_state, 2);
}

#[test]
fn handshake_read_rejects_short_input() {
    let hs = HandshakePacket {
        protocol_version: 404,
        server_address: "localhost".to_string(),
        server_port: 25565,
        next_state: 1,
    };
    let mut buf: Vec<u8> = Vec::new();
    hs.write(&mut buf).unwrap();
    for cut in 0..buf.len() {
        assert!(HandshakePacket::read(&buf[..cut]).is_err());
    }
}
