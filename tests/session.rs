use golf_server::appearance::Appearance;
use golf_server::character::{CharID, Character};
use golf_server::item::{CountedItem, Item, ItemCategory};
use golf_server::lobby::{Lobby, Mode, Room};
use golf_server::login::{authenticate_user, AckIDPassResult};
use golf_server::packet::{BallPos, IDPass, Packet, Packet19, Shot};
use golf_server::server::{Account, GameServer, LoginResult, Outbound};
use golf_server::shop::{build_salon_list, build_sell_list, do_buy_item, BuyItemResult};
use golf_server::user::{Currency, User};
use golf_server::game::{generate_game, random_hole_order};
use golf_server::frame::PidCounter;
use golf_server::record::CRecord;
use golf_server::text::{default_name, trim_name};
use golf_server::shop::Marketing;
use golf_server::connection::{step, ConnAction, ConnEvent, ConnState};

fn account(uid: i32) -> Account {
    Account { uid, name: "player".encode_utf16().collect(), user: User::new(), characters: vec![] }
}

fn login(srv: &mut GameServer, uid: i32) -> i32 {
    match srv.handle_login(account(uid)).0 {
        LoginResult::Success { cid } => cid,
        other => panic!("login failed: {:?}", other),
    }
}

fn units(s: &str, n: usize) -> Vec<u16> {
    let mut v: Vec<u16> = s.encode_utf16().collect();
    v.resize(n, 0);
    v
}

fn room_request(password: &str) -> Packet19 {
    Packet19 {
        mode: 1,
        lobby: 0,
        room: 0,
        flag: if password.is_empty() { 0 } else { 4 },
        member_max: 4,
        member: 0,
        watcher: 0,
        rules: 0,
        time_limit: 0,
        course: 0,
        season: 0,
        num_holes: 3,
        course_setting: 0,
        limits: vec![0; 7],
        room_name: units("room", 33),
        room_password: units(password, 17),
    }
}

fn targets(out: &[Outbound]) -> Vec<i32> {
    out.iter().map(|o| o.cid).collect()
}

/// Logs a player in and takes it into the VS lobby.
fn player_in_lobby(srv: &mut GameServer, uid: i32) -> i32 {
    let cid = login(srv, uid);
    srv.handle_player_data(cid, 1, Packet::REQ_CHG_MODE { mode: 1 });
    let out = srv.handle_player_data(cid, 2, Packet::REQ_ENTER_LOBBY { lobby: 0 });
    assert_eq!(out[0].packet, Packet::ACK_ENTER_LOBBY { lobby: 0 });
    cid
}

fn bare_room(n: i8) -> Room {
    Room {
        room_num: n,
        members: vec![],
        max_members: 4,
        name: units("r", 33),
        password: None,
        allow_spectators: false,
        rules: 0,
        course: 0,
        season: 0,
        time_limit: 0,
        num_holes: 0,
        course_setting: 0,
        limits: vec![0; 7],
        current_player: -1,
    }
}

#[test]
fn login_assigns_cids_from_the_pool() {
    let mut srv = GameServer::new();
    let (r, out) = srv.handle_login(account(10));
    assert_eq!(r, LoginResult::Success { cid: 600 });
    assert_eq!(targets(&out), vec![600, 600]);
    assert!(matches!(out[0].packet, Packet::ACK_IDPASS_G(ref u) if u.cid == 600 && u.uid == 10));
    assert!(matches!(out[1].packet, Packet::ORD_COLOR_RESULT(_)));
    assert_eq!(login(&mut srv, 11), 601);
}

#[test]
fn second_login_for_same_account_is_rejected() {
    let mut srv = GameServer::new();
    let first = srv.handle_login(account(42)).0;
    let second = srv.handle_login(account(42));
    assert_eq!(first, LoginResult::Success { cid: 600 });
    assert_eq!(second.0, LoginResult::Fail(AckIDPassResult::MultiLoginError));
    assert!(second.1.is_empty());
    assert_eq!(srv.conns.len(), 1);
    // the other order: the account that logged in first keeps its session
    let mut srv = GameServer::new();
    login(&mut srv, 7);
    assert_eq!(srv.handle_login(account(42)).0, LoginResult::Success { cid: 601 });
    assert_eq!(srv.handle_login(account(42)).0, LoginResult::Fail(AckIDPassResult::MultiLoginError));
}

#[test]
fn cid_reused_after_logout() {
    let mut srv = GameServer::new();
    let a = login(&mut srv, 1);
    login(&mut srv, 2);
    srv.remove_player(a);
    srv.next_cid = 600;
    assert_eq!(login(&mut srv, 3), 600);
}

#[test]
fn enter_lobby_notifies_others() {
    let mut srv = GameServer::new();
    let a = player_in_lobby(&mut srv, 1);
    let b = login(&mut srv, 2);
    srv.handle_player_data(b, 1, Packet::REQ_CHG_MODE { mode: 1 });
    let out = srv.handle_player_data(b, 2, Packet::REQ_ENTER_LOBBY { lobby: 0 });
    assert_eq!(targets(&out), vec![b, a]);
    assert!(matches!(out[1].packet, Packet::SEND_ULIST_L(ref u) if u.cid == b));
    // already in a lobby
    let out = srv.handle_player_data(b, 3, Packet::REQ_ENTER_LOBBY { lobby: 0 });
    assert_eq!(out[0].packet, Packet::ACK_ENTER_LOBBY { lobby: -1 });
    assert_eq!(srv.lobbies[0].members, vec![a, b]);
}

#[test]
fn next_room_number_fills_the_gap() {
    let lobby = Lobby {
        mode: Mode::VS,
        num: 0,
        name: units("x", 17),
        members: vec![],
        max_members: 10,
        rooms: vec![bare_room(0), bare_room(1), bare_room(3)],
    };
    assert_eq!(lobby.pick_free_room_num(), Some(2));
    let mut srv = GameServer::new();
    srv.lobbies[0].rooms = vec![bare_room(0), bare_room(1), bare_room(3)];
    let a = player_in_lobby(&mut srv, 1);
    let out = srv.handle_player_data(a, 9, Packet::REQ_MAKE_ROOM(room_request("")));
    assert_eq!(out[0].packet, Packet::ACK_MAKE_ROOM { room: 2 });
    assert_eq!(out[0].pid, Some(9));
    let nums: Vec<i8> = srv.lobbies[0].rooms.iter().map(|r| r.room_num).collect();
    assert_eq!(nums, vec![0, 1, 2, 3]);
    assert_eq!(srv.lobbies[0].rooms[2].members, vec![a]);
}

#[test]
fn full_lobby_refuses_another_room() {
    let mut srv = GameServer::new();
    srv.lobbies[0].rooms = (0..=127).map(bare_room).collect();
    let a = player_in_lobby(&mut srv, 1);
    let out = srv.handle_player_data(a, 9, Packet::REQ_MAKE_ROOM(room_request("")));
    assert_eq!(out[0].packet, Packet::ACK_MAKE_ROOM { room: -1 });
    assert_eq!(srv.lobbies[0].rooms.len(), 128);
    let empty = Lobby { mode: Mode::VS, num: 0, name: units("x", 17), members: vec![], max_members: 1, rooms: vec![] };
    assert_eq!(empty.pick_free_room_num(), Some(0));
}

#[test]
fn enter_room_with_password() {
    let mut srv = GameServer::new();
    let a = player_in_lobby(&mut srv, 1);
    let b = player_in_lobby(&mut srv, 2);
    let out = srv.handle_player_data(a, 5, Packet::REQ_MAKE_ROOM(room_request("abc")));
    assert_eq!(out[0].packet, Packet::ACK_MAKE_ROOM { room: 0 });

    let wrong = srv.handle_player_data(
        b,
        6,
        Packet::REQ_ENTER_ROOM { room: 0, room_flag: 0, room_password: units("xyz", 17) },
    );
    assert_eq!(targets(&wrong), vec![b]);
    assert!(matches!(wrong[0].packet, Packet::ACK_ENTER_ROOM(ref d) if d.room == -3));
    assert_eq!(srv.lobbies[0].rooms[0].members, vec![a]);

    let ok = srv.handle_player_data(
        b,
        7,
        Packet::REQ_ENTER_ROOM { room: 0, room_flag: 0, room_password: units("abc", 17) },
    );
    assert_eq!(targets(&ok), vec![b, a]);
    assert_eq!(ok[0].pid, Some(7));
    assert!(matches!(ok[0].packet, Packet::ACK_ENTER_ROOM(ref d) if d.room == 0 && d.member == 2 && d.flag == 4));
    assert!(matches!(ok[1].packet, Packet::SEND_ULIST(ref u) if u.cid == b && u.room == 0));
    assert_eq!(srv.lobbies[0].rooms[0].members, vec![a, b]);

    // already in a room; unknown room
    let again = srv.handle_player_data(b, 8, Packet::REQ_ENTER_ROOM { room: 0, room_flag: 0, room_password: units("abc", 17) });
    assert!(matches!(again[0].packet, Packet::ACK_ENTER_ROOM(ref d) if d.room == -1));
    let c = player_in_lobby(&mut srv, 3);
    let missing = srv.handle_player_data(c, 8, Packet::REQ_ENTER_ROOM { room: 9, room_flag: 0, room_password: units("", 17) });
    assert!(matches!(missing[0].packet, Packet::ACK_ENTER_ROOM(ref d) if d.room == -2));
}

#[test]
fn full_room_is_refused() {
    let mut srv = GameServer::new();
    let a = player_in_lobby(&mut srv, 1);
    let mut req = room_request("");
    req.member_max = 1;
    srv.handle_player_data(a, 5, Packet::REQ_MAKE_ROOM(req));
    let b = player_in_lobby(&mut srv, 2);
    let out = srv.handle_player_data(b, 6, Packet::REQ_ENTER_ROOM { room: 0, room_flag: 0, room_password: units("", 17) });
    assert!(matches!(out[0].packet, Packet::ACK_ENTER_ROOM(ref d) if d.room == -4));
}

#[test]
fn logout_leaves_room_and_lobby() {
    let mut srv = GameServer::new();
    let a = player_in_lobby(&mut srv, 1);
    let b = player_in_lobby(&mut srv, 2);
    let c = player_in_lobby(&mut srv, 3);
    srv.handle_player_data(a, 5, Packet::REQ_MAKE_ROOM(room_request("")));
    for p in [b, c] {
        srv.handle_player_data(p, 6, Packet::REQ_ENTER_ROOM { room: 0, room_flag: 0, room_password: units("", 17) });
    }
    let out = srv.remove_player(b);
    assert_eq!(targets(&out), vec![a, c]);
    assert_eq!(srv.lobbies[0].members, vec![a, c]);
    assert_eq!(srv.lobbies[0].rooms[0].members, vec![a, c]);
    assert!(srv.find_conn(b).is_none());
    let relay = srv.handle_player_data(a, 0, Packet::CLIENT_LOADSTAT { progress: 50 });
    assert_eq!(targets(&relay), vec![c]);
    assert_eq!(relay[0].packet, Packet::SEND_LOADSTAT { cid: a, progress: 50 });
    // messages for the removed connection are dropped
    assert!(srv.handle_player_data(b, 0, Packet::CLIENT_LOADSTAT { progress: 1 }).is_empty());
    assert!(srv.remove_player(b).is_empty());
}

#[test]
fn leave_room_returns_to_lobby() {
    let mut srv = GameServer::new();
    let a = player_in_lobby(&mut srv, 1);
    srv.handle_player_data(a, 5, Packet::REQ_MAKE_ROOM(room_request("")));
    let out = srv.handle_player_data(a, 6, Packet::PKT_24);
    assert_eq!(out[0].packet, Packet::ACK_EXIT_ROOM { status: 0 });
    assert!(srv.lobbies[0].rooms[0].members.is_empty());
    assert_eq!(srv.lobbies[0].members, vec![a]);
    let out = srv.handle_player_data(a, 6, Packet::PKT_24);
    assert_eq!(out[0].packet, Packet::ACK_EXIT_ROOM { status: -1 });
}

#[test]
fn stop_ballpos_needs_shot_authority() {
    let mut srv = GameServer::new();
    let a = player_in_lobby(&mut srv, 1);
    let b = player_in_lobby(&mut srv, 2);
    srv.handle_player_data(a, 5, Packet::REQ_MAKE_ROOM(room_request("")));
    srv.handle_player_data(b, 6, Packet::REQ_ENTER_ROOM { room: 0, room_flag: 0, room_password: units("", 17) });
    let shot = Shot { clock: 1, cid: 0, dir: 0, power: 2, impact: 3, hit_x: 0, hit_y: 0, club: 1 };
    let out = srv.handle_player_data(a, 0, Packet::CLIENT_SHOT(shot));
    assert_eq!(targets(&out), vec![b]);
    assert!(matches!(out[0].packet, Packet::SEND_SHOT(ref s) if s.cid == a));
    assert_eq!(srv.lobbies[0].rooms[0].current_player, a);
    let bp = BallPos { cid: 0, hole: 1, stat: 0, x: 0, y: 0, z: 0 };
    assert!(srv.handle_player_data(b, 0, Packet::CLIENT_STOP_BALLPOS(bp.clone())).is_empty());
    let out = srv.handle_player_data(a, 0, Packet::CLIENT_STOP_BALLPOS(bp));
    assert_eq!(targets(&out), vec![a, b]);
}

#[test]
fn start_game_in_vs_room_reaches_every_member() {
    let mut srv = GameServer::new();
    let a = player_in_lobby(&mut srv, 1);
    let b = player_in_lobby(&mut srv, 2);
    srv.handle_player_data(a, 5, Packet::REQ_MAKE_ROOM(room_request("")));
    srv.handle_player_data(b, 6, Packet::REQ_ENTER_ROOM { room: 0, room_flag: 0, room_password: units("", 17) });
    let out = srv.handle_player_data(b, 0, Packet::REQ_GAMESTART);
    assert_eq!(targets(&out), vec![a, b, b]);
    match &out[0].packet {
        Packet::ORD_GAMESTART(g) => {
            assert_eq!(g.cid[0], a as u32);
            assert_eq!(g.cid[1], b as u32);
            assert_eq!(g.cid[2], 0xFFFF_FFFF);
            assert_eq!(g.member, 2);
            let mut first: Vec<u8> = g.hole_no[..3].to_vec();
            first.sort();
            first.dedup();
            assert_eq!(first.len(), 3);
            assert!(first.iter().all(|h| *h < 18));
            assert!(g.hole_no[3..].iter().all(|h| *h == 0xFF));
        }
        other => panic!("unexpected {:?}", other),
    }
    assert_eq!(out[2].packet, Packet::ACK_GAMESTART { status: 0 });
}

#[test]
fn generate_game_uses_given_order() {
    let order: Vec<i8> = vec![5, 2, 9, 0, 1, 3, 4, 6, 7, 8, 10, 11, 12, 13, 14, 15, 16, 17];
    let g = generate_game(1, &vec![600, 601], 4, &order);
    assert_eq!(&g.hole_no[..4], &[5, 2, 9, 0xFF]);
    assert_eq!(g.member_max, 4);
    assert_eq!(g.cid[1], 601);
}

#[test]
fn single_mode_game_start() {
    let mut srv = GameServer::new();
    let a = login(&mut srv, 1);
    srv.handle_player_data(a, 1, Packet::REQ_CHG_MODE { mode: 5 });
    let out = srv.handle_player_data(a, 0, Packet::REQ_GAMESTART);
    assert_eq!(targets(&out), vec![a, a]);
    assert!(matches!(out[0].packet, Packet::ORD_GAMESTART(ref g) if g.mode == 5 && g.cid[0] == a as u32));
}

#[test]
fn lobby_queries() {
    let mut srv = GameServer::new();
    let a = player_in_lobby(&mut srv, 1);
    let out = srv.handle_player_data(a, 0, Packet::GET_LOBBY_NUM);
    assert_eq!(out[0].packet, Packet::SEND_LOBBY_NUM { count: 1 });
    let out = srv.handle_player_data(a, 4, Packet::GET_LOBBY_DATA { index: 0, mode: 1 });
    assert!(matches!(out[0].packet, Packet::SEND_LOBBY_DATA(ref d) if d.member == 1 && d.member_max == 10));
    srv.handle_player_data(a, 5, Packet::REQ_MAKE_ROOM(room_request("")));
    let out = srv.handle_player_data(a, 6, Packet::GET_ROOMS);
    assert_eq!(out.len(), 1);
    let out = srv.handle_player_data(a, 7, Packet::REQ_ULIST { mode: 1, lobby: 0, room: 0 });
    assert_eq!(out.len(), 2);
    assert_eq!(out[1].packet, Packet::ACK_ULIST_R { status: 0 });
    let out = srv.handle_player_data(a, 7, Packet::REQ_ULIST { mode: 1, lobby: 0, room: 5 });
    assert_eq!(out[0].packet, Packet::ACK_ULIST_R { status: -1 });
    let out = srv.handle_player_data(a, 8, Packet::REQ_ULIST_L { mode: 1, lobby: 0 });
    assert_eq!(out.len(), 1);
    let out = srv.handle_player_data(a, 9, Packet::PKT_93);
    assert_eq!(out[0].packet, Packet::REP_MONEY { gp: 5000, sc: 100 });
}

#[test]
fn change_mode_leaves_lobby() {
    let mut srv = GameServer::new();
    let a = player_in_lobby(&mut srv, 1);
    let out = srv.handle_player_data(a, 0, Packet::REQ_CHG_MODE { mode: 2 });
    assert_eq!(out.last().unwrap().packet, Packet::ACK_CHG_MODE { mode: 2 });
    assert!(srv.lobbies[0].members.is_empty());
    assert_eq!(srv.conns[0].cur_lobby, -1);
    assert_eq!(srv.conns[0].mode, Mode::Competition);
}

#[test]
fn unhandled_messages_are_ignored() {
    let mut srv = GameServer::new();
    let a = login(&mut srv, 1);
    assert!(srv.handle_player_data(a, 0, Packet::Unknown { id: 999 }).is_empty());
    assert!(srv.handle_player_data(a, 0, Packet::REQ_GMSVLIST).is_empty());
}

#[test]
fn buy_items() {
    let shop = build_sell_list();
    let mut user = User::new();
    let ball = Item::new(ItemCategory::Ball, 3);
    assert_eq!(do_buy_item(&shop, &mut user, CountedItem::new(ball, 2)), BuyItemResult::OK);
    assert_eq!(user.gp, 5000 - 2 * 15);
    assert_eq!(user.item_amount(ball), 2);
    assert_eq!(do_buy_item(&shop, &mut user, CountedItem::new(ball, 0)), BuyItemResult::InvalidCount);
    assert_eq!(do_buy_item(&shop, &mut user, CountedItem::new(ball, 49)), BuyItemResult::InvalidCount);
    let unknown = Item::new(ItemCategory::Ball, 99);
    assert_eq!(do_buy_item(&shop, &mut user, CountedItem::new(unknown, 1)), BuyItemResult::InvalidItemType);
    let club = Item::new(ItemCategory::ClubSet, 55);
    user.gp = 100;
    assert_eq!(do_buy_item(&shop, &mut user, CountedItem::new(club, 1)), BuyItemResult::Balance);
    assert_eq!(user.gp, 100);
    assert!(user.check_balance(Currency::GP, 100));
    assert!(!user.check_balance(Currency::TicketsOnly, 0));
}

#[test]
fn buy_through_the_server() {
    let mut srv = GameServer::new();
    let a = login(&mut srv, 1);
    let ball = Item::new(ItemCategory::Ball, 1);
    let out = srv.handle_player_data(a, 0, Packet::REQ_BUY_ITEM { item: CountedItem::new(ball, 4).0 });
    assert_eq!(out[0].packet, Packet::ACK_BUY_ITEM { result: 0 });
    assert_eq!(out[1].packet, Packet::REP_MONEY { gp: 5000 - 20, sc: 100 });
}

#[test]
fn catalogue_sizes() {
    assert_eq!(build_salon_list().len(), 7 * 22 + 15 + 18 + 19 + 18 + 18 + 20 + 16);
    assert!(build_sell_list().iter().all(|s| s.currency == Currency::GP));
    assert_eq!(build_sell_list().len(), 878);
    assert!(build_sell_list().iter().all(|s| s.price <= 0xFFFFF));
}

#[test]
fn login_gate_checks() {
    let name = b"user".to_vec();
    let pw = b"pw".to_vec();
    assert_eq!(authenticate_user(&vec![], &pw, 956, None), AckIDPassResult::IDError);
    assert_eq!(authenticate_user(&name, &vec![], 956, None), AckIDPassResult::PassError);
    assert_eq!(authenticate_user(&name, &pw, 955, None), AckIDPassResult::VersionError);
    assert_eq!(authenticate_user(&name, &pw, 956, None), AckIDPassResult::AccountNotError);
    assert_eq!(authenticate_user(&name, &pw, 956, Some(b"no".to_vec())), AckIDPassResult::PassError);
    assert_eq!(authenticate_user(&name, &pw, 956, Some(b"pw".to_vec())), AckIDPassResult::OK);
}

fn sample_appearance() -> Appearance {
    Appearance {
        character_id: CharID::Rose,
        head: None,
        face: None,
        glasses: None,
        tops: Some(1),
        bottoms: Some(1),
        shoes: Some(1),
        gloves: None,
        wing: None,
        club: None,
        skirt: None,
        hair_style: 1,
        hair_color: 1,
        eye_color: 1,
        skin_color: 1,
        face_paint: 0,
        default_tops: Some(1),
        default_bottoms: Some(1),
        default_shoes: Some(1),
        default_hair_color: 1,
        default_eye_color: 1,
        default_skin_color: 1,
    }
}

#[test]
fn first_character_creation() {
    let mut srv = GameServer::new();
    let a = login(&mut srv, 77);
    assert_eq!(srv.begin_create_first_character(a), Some(77));
    assert_eq!(srv.begin_create_first_character(999), None);
    let c = Character::new(sample_appearance());
    assert_eq!(c.club, Item::new(ItemCategory::ClubSet, 2));
    assert_eq!(c.ball, Item::new(ItemCategory::Ball, 1));
    let out = srv.finish_create_first_character(a, Some((12, c)));
    assert_eq!(out[0].packet, Packet::ACK_FIRST_CHARACTER_APPEARANCE { status: 0 });
    assert_eq!(srv.begin_create_first_character(a), None);
    let out = srv.handle_player_data(a, 3, Packet::PKT_137 { cid: a });
    assert_eq!(out[0].packet, Packet::SEND_CRCHRUID { cid: a, now_chr_uid: 12 });
    assert_eq!(out[0].pid, Some(3));
    let out = srv.finish_create_first_character(a, None);
    assert_eq!(out[0].packet, Packet::ACK_FIRST_CHARACTER_APPEARANCE { status: -1 });
}

#[test]
fn golf_bag_and_hold_box() {
    let mut srv = GameServer::new();
    let a = login(&mut srv, 5);
    let out = srv.handle_player_data(a, 0, Packet::PKT_133 { arg: -1 });
    assert!(matches!(out[0].packet, Packet::PKT_134 { cid, ref items, ref unk, .. } if cid == a && items.len() == 8 && unk.len() == 4060));
    let hold: Vec<u32> = (1..=8).collect();
    let out = srv.handle_player_data(a, 0, Packet::PKT_189 { hold_item: hold.clone() });
    assert_eq!(out[0].packet, Packet::ACK_CHG_HOLDBOX { status: 0 });
    let got: Vec<u32> = srv.conns[0].user.holdbox.iter().map(|i| i.0).collect();
    assert_eq!(got, hold);
}

#[test]
fn pid_counter_answers_or_counts() {
    let mut c = PidCounter::new();
    assert_eq!(c.assign(None), 1);
    assert_eq!(c.assign(Some(40)), 40);
    assert_eq!(c.assign(None), 2);
    c.next = i16::MAX;
    assert_eq!(c.assign(None), i16::MAX);
    assert_eq!(c.assign(None), i16::MIN);
}

#[test]
fn name_change_is_recorded() {
    let mut srv = GameServer::new();
    let a = login(&mut srv, 5);
    let out = srv.finish_set_player_name(a, Some("neo".encode_utf16().collect()));
    assert_eq!(out[0].packet, Packet::ACK_SET_CHARACTER_NAME { status: 0 });
    assert_eq!(String::from_utf16_lossy(&srv.conns[0].name), "neo");
    let out = srv.finish_set_player_name(a, None);
    assert_eq!(out[0].packet, Packet::ACK_SET_CHARACTER_NAME { status: -1 });
    assert!(srv.finish_set_player_name(12345, None).is_empty());
}

#[test]
fn connection_handshake_and_relay() {
    let idpass = IDPass { username: b"u".to_vec(), password: b"p".to_vec(), version: 956 };
    let (st, acts) = step(ConnState::Handshaking, ConnEvent::Inbound { pid: 1, packet: Packet::GET_ROOMS });
    assert_eq!(st, ConnState::Handshaking);
    assert!(acts.is_empty());
    let (st, acts) = step(st, ConnEvent::Inbound { pid: 1, packet: Packet::SEND_IDPASS_G(idpass) });
    assert_eq!(st, ConnState::Handshaking);
    assert!(matches!(acts[0], ConnAction::AskLogin(_)));
    let (st, acts) = step(st, ConnEvent::LoginAnswer(LoginResult::Fail(AckIDPassResult::MultiLoginError)));
    assert_eq!(st, ConnState::Handshaking);
    assert!(matches!(acts[0], ConnAction::Send { pid: None, packet: Packet::ACK_IDPASS_G(ref u) } if u.cid == -5));
    let (st, acts) = step(st, ConnEvent::LoginAnswer(LoginResult::Success { cid: 600 }));
    assert_eq!(st, ConnState::Relaying { cid: 600 });
    assert!(acts.is_empty());
    let (st, acts) = step(st, ConnEvent::Inbound { pid: 9, packet: Packet::GET_ROOMS });
    assert!(matches!(acts[0], ConnAction::Forward { cid: 600, pid: 9, .. }));
    let (st, acts) = step(st, ConnEvent::Outbound { pid: Some(9), packet: Packet::ACK_EXIT_ROOM { status: 0 } });
    assert!(matches!(acts[0], ConnAction::Send { pid: Some(9), .. }));
    let (st, acts) = step(st, ConnEvent::TransportClosed);
    assert_eq!(st, ConnState::Closing);
    assert!(matches!(acts[0], ConnAction::Logout(600)));
    assert!(matches!(acts[1], ConnAction::Shutdown));
    let (st, acts) = step(st, ConnEvent::TransportClosed);
    assert_eq!(st, ConnState::Closing);
    assert!(acts.is_empty());
    let (_, acts) = step(ConnState::Handshaking, ConnEvent::TransportClosed);
    assert!(matches!(acts[0], ConnAction::Shutdown));
}

#[test]
fn course_record_reply() {
    let mut srv = GameServer::new();
    let a = login(&mut srv, 5);
    let mut rec = CRecord::new();
    rec.max_putt = 3;
    rec.max_chipin = 4;
    let out = srv.finish_get_c_record(8, 0, 5, 1, 2, 3, Some(rec));
    assert_eq!(out[0].cid, a);
    assert_eq!(out[0].pid, Some(8));
    assert!(matches!(out[0].packet, Packet::SEND_CRECORD(ref d) if d.status == 0 && d.chip_putt == 4 | (3 << 18) && d.hole_idx == 3));
    let out = srv.finish_get_c_record(8, 0, 5, 1, 2, 3, None);
    assert!(matches!(out[0].packet, Packet::SEND_CRECORD(ref d) if d.status == -1 && d.lowest_score == -99));
}

#[test]
fn appearance_requests() {
    let mut srv = GameServer::new();
    let a = login(&mut srv, 5);
    let b = login(&mut srv, 6);
    assert!(srv.handle_player_data(b, 1, Packet::REQ_APPEAR { cid: a }).is_empty());
    srv.finish_create_first_character(a, Some((30, Character::new(sample_appearance()))));
    let out = srv.handle_player_data(b, 1, Packet::REQ_APPEAR { cid: a });
    assert_eq!(targets(&out), vec![b]);
    assert_eq!(out[0].packet, Packet::SEND_APPEAR { cid: a, unk: 0, appear: sample_appearance() });
    let mut changed = sample_appearance();
    changed.hair_color = 9;
    let out = srv.handle_player_data(b, 2, Packet::REQ_CHG_APPEAR { cid: a, chr_uid: 30, appear: changed });
    assert_eq!(out[0].packet, Packet::PKT_104 { status: -1 });
    let out = srv.handle_player_data(a, 2, Packet::REQ_CHG_APPEAR { cid: a, chr_uid: 31, appear: changed });
    assert_eq!(out[0].packet, Packet::PKT_104 { status: -1 });
    let out = srv.handle_player_data(a, 2, Packet::REQ_CHG_APPEAR { cid: a, chr_uid: 30, appear: changed });
    assert_eq!(out[0].packet, Packet::PKT_104 { status: 0 });
    let out = srv.handle_player_data(b, 1, Packet::REQ_APPEAR { cid: a });
    assert_eq!(out[0].packet, Packet::SEND_APPEAR { cid: a, unk: 0, appear: changed });
}

#[test]
fn hole_order_is_shuffled() {
    let sorted: Vec<i8> = (0..18).collect();
    let mut any_moved = false;
    for _ in 0..5 {
        let mut order = random_hole_order();
        if order != sorted {
            any_moved = true;
        }
        order.sort();
        assert_eq!(order, sorted);
    }
    assert!(any_moved);
}

#[test]
fn character_data_requests() {
    let mut srv = GameServer::new();
    let a = login(&mut srv, 5);
    let b = login(&mut srv, 6);
    srv.finish_create_first_character(a, Some((30, Character::new(sample_appearance()))));
    let out = srv.handle_player_data(b, 4, Packet::REQ_CHRDATA { cid: a, chr_uid: 30 });
    assert_eq!(targets(&out), vec![b]);
    assert_eq!(out[0].pid, Some(4));
    match &out[0].packet {
        Packet::SEND_CHRDATA(d) => {
            assert_eq!(d.cid, a);
            assert_eq!(d.uid, 5);
            assert_eq!(d.chr_uid, 30);
            assert_eq!(d.type_, 3);
            assert_eq!(d.appearance, sample_appearance().to_words().unwrap());
            assert_eq!(d.club, Item::new(ItemCategory::ClubSet, 2).0);
            assert_eq!(d.param_settings.len(), 32);
        }
        other => panic!("unexpected {:?}", other),
    }
    assert!(srv.handle_player_data(b, 4, Packet::REQ_CHRDATA { cid: a, chr_uid: 31 }).is_empty());
    let out = srv.handle_player_data(b, 4, Packet::GET_CHRDATA { cid: a });
    assert_eq!(out.len(), 1);
    assert!(srv.handle_player_data(b, 4, Packet::GET_CHRDATA { cid: 1 }).is_empty());
}

#[test]
fn names_are_trimmed_and_defaulted() {
    let mut raw: Vec<u16> = "  neo \t".encode_utf16().collect();
    raw.resize(17, 0);
    assert_eq!(trim_name(&raw), "neo".encode_utf16().collect::<Vec<u16>>());
    assert!(trim_name(&vec![0x20, 0x20, 0]).is_empty());
    let id: Vec<u16> = "bob".encode_utf16().collect();
    assert_eq!(default_name(None, &id), "_bob".encode_utf16().collect::<Vec<u16>>());
    assert_eq!(default_name(Some(vec![0x41]), &id), vec![0x41]);
}

#[test]
fn queue_closing_logs_out() {
    let (st, acts) = step(ConnState::Relaying { cid: 601 }, ConnEvent::QueueClosed);
    assert_eq!(st, ConnState::Closing);
    assert!(matches!(acts[0], ConnAction::Logout(601)));
    assert!(matches!(acts[1], ConnAction::Shutdown));
}

#[test]
fn marketing_labels_round_trip() {
    for m in [Marketing::Plain, Marketing::New, Marketing::Hot, Marketing::Sale] {
        assert_eq!(Marketing::from_flags(m.to_flags()), m);
    }
}

#[test]
fn shop_lists_and_inventory() {
    let mut srv = GameServer::new();
    let a = login(&mut srv, 9);
    let out = srv.handle_player_data(a, 0, Packet::PKT_89);
    match &out[0].packet {
        Packet::SEND_SELLITEMLIST { count, items } => {
            assert_eq!(*count as usize, srv.shop_items.len());
            assert_eq!(items.len(), 3 * srv.shop_items.len());
            assert_eq!(items[0], srv.shop_items[0].item.0);
        }
        other => panic!("unexpected {:?}", other),
    }
    let out = srv.handle_player_data(a, 0, Packet::PKT_166);
    assert!(matches!(out[0].packet, Packet::SEND_SALON_ITEM_LIST { count: 278, ref items } if items.len() == 834));
    let ball = Item::new(ItemCategory::Ball, 1);
    srv.handle_player_data(a, 0, Packet::REQ_BUY_ITEM { item: CountedItem::new(ball, 2).0 });
    let out = srv.handle_player_data(a, 0, Packet::PKT_131 { arg: -1 });
    assert_eq!(out[0].packet, Packet::PKT_132 { count: 1, items: vec![CountedItem::new(ball, 2).0] });
}

#[test]
fn character_parameters_change() {
    let mut srv = GameServer::new();
    let a = login(&mut srv, 5);
    srv.finish_create_first_character(a, Some((30, Character::new(sample_appearance()))));
    let params: Vec<u16> = (0..32).map(|i| i as u16).collect();
    let req = |chr_uid: i32, cr_class: i8| Packet::REQ_CHG_CHR_PARAM {
        chr_uid, cr_class, power: -1, impact: -1, params: params.clone(), club: 7, ball: 8, caddie: 9,
    };
    let out = srv.handle_player_data(a, 0, req(31, 2));
    assert_eq!(out[0].packet, Packet::ACK_CHG_CHR_PARAM { status: -1 });
    let out = srv.handle_player_data(a, 0, req(30, 9));
    assert_eq!(out[0].packet, Packet::ACK_CHG_CHR_PARAM { status: -1 });
    let out = srv.handle_player_data(a, 0, req(30, 2));
    assert_eq!(out[0].packet, Packet::ACK_CHG_CHR_PARAM { status: 0 });
    let c = &srv.conns[0].characters[0].1;
    assert_eq!(c.class_cap, golf_server::character::Class::E);
    assert_eq!(c.settings[1].power, 4);
    assert_eq!(c.club, Item(7));
}

#[test]
fn buying_answers_the_outcome() {
    let mut srv = GameServer::new();
    let a = login(&mut srv, 5);
    let unknown = Item::new(ItemCategory::Ball, 99);
    let out = srv.handle_player_data(a, 0, Packet::REQ_BUY_ITEM { item: CountedItem::new(unknown, 1).0 });
    assert_eq!(out[0].packet, Packet::ACK_BUY_ITEM { result: -4 });
    assert_eq!(out[1].packet, Packet::REP_MONEY { gp: 5000, sc: 100 });
}
