use golf_server::appearance::{pack_optional, unpack_optional, Appearance};
use golf_server::bytes::CodecError;
use golf_server::character::{CharID, Class, Rank};
use golf_server::frame::{encode_frame, read_frame, FrameRead};
use golf_server::item::{CountedItem, Item, ItemCategory};
use golf_server::packet::{IDPass, Packet, Packet19};
use golf_server::text::until_nul;
use golf_server::record::CRecord;
use golf_server::report::{GameReport, HoleReport, Outcome};

fn sample_appearance() -> Appearance {
    Appearance {
        character_id: CharID::Miel,
        head: Some(12),
        face: None,
        glasses: Some(0),
        tops: Some(0x3FD),
        bottoms: Some(7),
        shoes: None,
        gloves: Some(3),
        wing: None,
        club: Some(1),
        skirt: None,
        hair_style: 0x3FF,
        hair_color: 2,
        eye_color: 0xFF,
        skin_color: 4,
        face_paint: 9,
        default_tops: Some(1),
        default_bottoms: Some(2),
        default_shoes: None,
        default_hair_color: 5,
        default_eye_color: 6,
        default_skin_color: 0x80,
    }
}

#[test]
fn item_category_round_trip_character_scoped() {
    let item = Item::new(ItemCategory::Head(CharID::Miel), 5);
    assert_eq!(item.category(), ItemCategory::Head(CharID::Miel));
    assert_eq!(item.num(), 5);
    assert_eq!(item.0, 0x1800 | (2 << 17) | 5);
}

#[test]
fn item_category_round_trip_global() {
    let item = Item::new(ItemCategory::Ball, 0x7FF);
    assert_eq!(item.0, 0x3000 | 0x7FF);
    assert_eq!(item.category(), ItemCategory::Ball);
    assert_eq!(item.num(), 0x7FF);
    let club = Item::new(ItemCategory::ClubSet, 0);
    assert_eq!(club.0, 0x800);
    assert_eq!(club.category(), ItemCategory::ClubSet);
    let caddy = Item::new(ItemCategory::Caddy, 3);
    assert_eq!(caddy.category(), ItemCategory::Caddy);
    let chara = Item::new(ItemCategory::Chara(CharID::Sect), 3);
    assert_eq!(chara.category(), ItemCategory::Chara(CharID::Sect));
}

#[test]
fn item_every_category_round_trips() {
    let chars = [CharID::Rusk, CharID::Miel, CharID::Rose, CharID::Chocola, CharID::Shelly, CharID::Gouda, CharID::Sect];
    let mut cats = vec![
        ItemCategory::ClubSet,
        ItemCategory::Ball,
        ItemCategory::CarryItemParameter,
        ItemCategory::CarryItemEnvironment,
        ItemCategory::CarryItemGroundRes,
        ItemCategory::CarryItemPowerGauge,
        ItemCategory::CarryItemCaddy,
        ItemCategory::HoldItemPoint,
        ItemCategory::HoldItemEvent,
        ItemCategory::HoldItemTicket,
        ItemCategory::HoldItemHumor,
        ItemCategory::HoldItemSupport,
        ItemCategory::Caddy,
    ];
    for c in chars {
        cats.extend([
            ItemCategory::Head(c),
            ItemCategory::Glasses(c),
            ItemCategory::Tops(c),
            ItemCategory::Bottoms(c),
            ItemCategory::Shoes(c),
            ItemCategory::Gloves(c),
            ItemCategory::Wing(c),
            ItemCategory::HairStyle(c),
            ItemCategory::HairColor(c),
            ItemCategory::SkinColor(c),
            ItemCategory::FacePaint(c),
            ItemCategory::EyeColor(c),
            ItemCategory::HairStyleTicket(c),
            ItemCategory::HairColorTicket(c),
            ItemCategory::SkinColorTicket(c),
            ItemCategory::FacePaintTicket(c),
            ItemCategory::EyeColorTicket(c),
            ItemCategory::Chara(c),
        ]);
    }
    for cat in cats {
        for num in [0u32, 1, 999, 0x7FF] {
            let item = Item::new(cat, num);
            assert_eq!(item.category(), cat);
            assert_eq!(item.num(), num);
            assert_eq!(item.category().character(), cat.character());
        }
    }
}

#[test]
fn item_zero_is_invalid() {
    assert_eq!(Item(0).category(), ItemCategory::Invalid);
    assert_eq!(Item::default().category(), ItemCategory::Invalid);
    assert_eq!(Item(0x2000).category(), ItemCategory::Invalid);
}

#[test]
fn item_maximum_and_character() {
    assert_eq!(ItemCategory::ClubSet.maximum(), 5);
    assert_eq!(ItemCategory::Ball.maximum(), 50);
    assert_eq!(ItemCategory::HairStyleTicket(CharID::Rose).maximum(), 50);
    assert_eq!(ItemCategory::Invalid.maximum(), 0);
    assert_eq!(ItemCategory::Tops(CharID::Rose).character(), Some(CharID::Rose));
    assert_eq!(ItemCategory::Ball.character(), None);
}

#[test]
fn counted_item_packs_count_and_item() {
    let item = Item::new(ItemCategory::Wing(CharID::Gouda), 77);
    for c in [0u32, 1, 100, 0x3FF] {
        let ci = CountedItem::new(item, c);
        assert_eq!(ci.count(), c);
        assert_eq!(ci.item(), item);
        assert_eq!(ci.0, (item.0 << 10) | c);
    }
    let ci = CountedItem::new(item, 5).with_count(9);
    assert_eq!(ci.count(), 9);
    assert_eq!(ci.item(), item);
    assert_eq!(item.one().count(), 1);
}

#[test]
fn optional_field_sentinel() {
    assert_eq!(pack_optional(None), Ok(0));
    assert_eq!(unpack_optional(0), None);
    assert_eq!(pack_optional(Some(0)), Ok(1));
    assert_eq!(unpack_optional(1), Some(0));
    assert_eq!(pack_optional(Some(0x3FD)), Ok(0x3FE));
    assert_eq!(unpack_optional(0x3FE), Some(0x3FD));
    assert_eq!(unpack_optional(0x3FF), None);
    assert_eq!(pack_optional(Some(0x3FE)), Err(CodecError::OutOfRange));
    assert_eq!(pack_optional(Some(0x3FF)), Err(CodecError::OutOfRange));
}

#[test]
fn appearance_round_trip() {
    let a = sample_appearance();
    let bytes = a.write().unwrap();
    assert_eq!(bytes.len(), 36);
    assert_eq!(Appearance::read(&bytes), Ok(a.clone()));
    let words = a.to_words().unwrap();
    assert_eq!(words[0], (2 << 2) | (9 << 8) | (13 << 18));
    assert_eq!(words[4], 0);
    assert_eq!(Appearance::from_words(&words), Ok(a));
}

#[test]
fn appearance_out_of_range_is_refused() {
    let mut a = sample_appearance();
    a.eye_color = 0x100;
    assert_eq!(a.write(), Err(CodecError::OutOfRange));
    let mut b = sample_appearance();
    b.head = Some(0x3FE);
    assert_eq!(b.write(), Err(CodecError::OutOfRange));
}

#[test]
fn appearance_with_unknown_character_fails() {
    let mut bytes = sample_appearance().write().unwrap();
    bytes[0] = 0;
    assert_eq!(Appearance::read(&bytes), Err(CodecError::Malformed));
    assert_eq!(Appearance::read(&bytes[..20]), Err(CodecError::Malformed));
}

fn units(s: &str, n: usize) -> Vec<u16> {
    let mut v: Vec<u16> = s.encode_utf16().collect();
    v.resize(n, 0);
    v
}

fn room_request(password: &str) -> Packet19 {
    Packet19 {
        mode: 1,
        lobby: 0,
        room: 0,
        flag: if password.is_empty() { 2 } else { 6 },
        member_max: 4,
        member: 0,
        watcher: 0,
        rules: 1,
        time_limit: 2,
        course: 3,
        season: 1,
        num_holes: 9,
        course_setting: 0,
        limits: vec![1, 2, 3, 4, 5, 6, 7],
        room_name: units("my room", 33),
        room_password: units(password, 17),
    }
}

fn check_frame(p: Packet, pid: i16) {
    let bytes = encode_frame(&p, pid).unwrap();
    let declared = u16::from_le_bytes([bytes[0], bytes[1]]) as usize;
    assert_eq!(declared + 2, bytes.len());
    let mut buffer = bytes.clone();
    buffer.extend([9, 9, 9]);
    match read_frame(&buffer) {
        FrameRead::Complete { packet, pid: got, consumed } => {
            assert_eq!(packet.id(), p.id());
            assert_eq!(packet, p);
            assert_eq!(got, pid);
            assert_eq!(consumed, bytes.len());
        }
        other => panic!("unexpected {:?}", other),
    }
}

#[test]
fn frame_round_trip_for_several_pids() {
    for pid in [0i16, 1, 30000, -1] {
        check_frame(Packet::REQ_ENTER_LOBBY { lobby: 3 }, pid);
        check_frame(Packet::GET_ROOMS, pid);
        check_frame(Packet::REQ_MAKE_ROOM(room_request("abc")), pid);
        check_frame(Packet::SET_FIRST_CHARACTER_APPEARANCE(sample_appearance()), pid);
        check_frame(Packet::REQ_ENTER_ROOM { room: 5, room_flag: 0x80, room_password: units("pw", 17) }, pid);
        check_frame(Packet::REP_MONEY { gp: -5, sc: 100 }, pid);
        check_frame(Packet::Unknown { id: 999 }, pid);
        check_frame(Packet::SEND_APPEAR { cid: 600, unk: 0, appear: sample_appearance() }, pid);
        check_frame(Packet::REQ_CHG_APPEAR { cid: 600, chr_uid: -7, appear: sample_appearance() }, pid);
    }
}

#[test]
fn frame_bytes_are_exact() {
    let bytes = encode_frame(&Packet::ACK_ENTER_LOBBY { lobby: -1 }, 7).unwrap();
    assert_eq!(bytes, vec![5, 0, 15, 0, 7, 0, 0xFF]);
    let bytes = encode_frame(&Packet::REP_MONEY { gp: 0x01020304, sc: -1 }, 0).unwrap();
    assert_eq!(bytes, vec![12, 0, 94, 0, 0, 0, 4, 3, 2, 1, 0xFF, 0xFF, 0xFF, 0xFF]);
}

#[test]
fn frame_reader_waits_for_whole_frame() {
    let bytes = encode_frame(&Packet::REQ_CHG_MODE { mode: 1 }, 3).unwrap();
    assert!(matches!(read_frame(&[]), FrameRead::Incomplete));
    assert!(matches!(read_frame(&bytes[..1]), FrameRead::Incomplete));
    assert!(matches!(read_frame(&bytes[..bytes.len() - 1]), FrameRead::Incomplete));
    assert!(matches!(read_frame(&bytes), FrameRead::Complete { .. }));
}

#[test]
fn frame_reader_rejects_malformed_frames() {
    assert!(matches!(read_frame(&[2, 0, 1, 0]), FrameRead::Invalid));
    // opcode 8 needs one body byte
    assert!(matches!(read_frame(&[4, 0, 8, 0, 0, 0]), FrameRead::Invalid));
    // an appearance of no character
    let mut body = sample_appearance().write().unwrap();
    body[0] = 0;
    let mut frame = vec![(4 + body.len()) as u8, 0, 95, 0, 0, 0];
    frame.extend(body);
    assert!(matches!(read_frame(&frame), FrameRead::Invalid));
}

#[test]
fn frame_reader_keeps_unknown_opcodes() {
    match read_frame(&[6, 0, 0xE7, 3, 2, 0, 1, 2]) {
        FrameRead::Complete { packet, pid, consumed } => {
            assert_eq!(packet, Packet::Unknown { id: 999 });
            assert_eq!(pid, 2);
            assert_eq!(consumed, 8);
        }
        other => panic!("unexpected {:?}", other),
    }
}

#[test]
fn frame_encoding_refuses_bad_messages() {
    let mut bad = room_request("");
    bad.room_name.pop();
    assert_eq!(encode_frame(&Packet::REQ_MAKE_ROOM(bad), 0), Err(CodecError::OutOfRange));
    assert_eq!(encode_frame(&Packet::Unknown { id: 8 }, 0), Err(CodecError::OutOfRange));
}

fn sample_report() -> GameReport {
    let hole = HoleReport {
        score: -2,
        gp: 0xFFF,
        is_hole_in_one: true,
        maximum_flight_distance: 0x3FFFF,
        longest_chip_in: 12,
        longest_putt: 0x3FFF,
        outcome: Outcome::Win,
        vs_point: 7,
    };
    GameReport {
        outcome: Outcome::Draw,
        num_strokes: 0xFF,
        num_cup_ins: 3,
        maximum_distance: 0x3FFFF,
        longest_putt_distance: 0x3FFF,
        maximum_tip_in_distance: 5,
        num_putts: 0x7F,
        num_nice_shots: 0x7F,
        num_tip_ins: 1,
        num_fairway_keep: 2,
        num_ob: 3,
        num_water_hazard: 4,
        num_4_or_more: 5,
        num_t_bogeys: 6,
        num_d_bogeys: 7,
        num_bogeys: 8,
        num_pars: 9,
        num_birdies: 10,
        num_eagles: 11,
        num_albatross: 7,
        num_hole_in_ones: 1,
        num_total_distance: 1000,
        play_time: 600,
        obtained_gp_round: 0x7FFF,
        obtained_gp_all: 1,
        acquired_experience: 2,
        num_direct_tip_ins: 3,
        num_rough: 4,
        num_bunkers: 5,
        num_obstacle_hits: 6,
        num_pinshots: 0x1F,
        num_flag_wraps: 0x1F,
        num_consumable_item_usage: 9,
        longest_tee_shot: 300,
        total_putt_distance_at_cup_in: 0xFFFF,
        num_top_or_backspin_successes: 1,
        num_fade_or_draw_usage: 2,
        num_clubs_used: 14,
        num_times_cooperating_with_caddy: 3,
        num_special_shots_used: 4,
        vs_rank: 5,
        halfway_score: -3,
        score: 4,
        holes: vec![hole; 18],
    }
}

#[test]
fn game_report_round_trip() {
    let r = sample_report();
    let bytes = r.write().unwrap();
    assert_eq!(bytes.len(), 48 + 2 + 18 * 13);
    let back = GameReport::read(&bytes).unwrap();
    assert_eq!(back.words(), r.words());
    assert_eq!(back.holes, r.holes);
    assert_eq!(back.halfway_score, -3);
    assert_eq!(back.score, 4);
    assert_eq!(back.num_pinshots, 0x1F);
    assert_eq!(back.num_flag_wraps, 0x1F);
    assert_eq!(r.words()[0], 3 | (0xFF << 3) | (3 << 11));
}

#[test]
fn game_report_out_of_range_is_refused() {
    let mut r = sample_report();
    r.num_strokes = 0x100;
    assert_eq!(r.write().err(), Some(CodecError::OutOfRange));
    let mut r = sample_report();
    r.holes.pop();
    assert_eq!(r.write().err(), Some(CodecError::OutOfRange));
    assert_eq!(GameReport::read(&[0u8; 100]).err(), Some(CodecError::Malformed));
}

#[test]
fn outcome_codes() {
    assert_eq!(Outcome::from_u32(4), Outcome::Win);
    assert_eq!(Outcome::from_u32(7), Outcome::Invalid);
    assert_eq!(Outcome::Conv.to_u32(), 6);
}

#[test]
fn course_record_round_trip() {
    let mut c = CRecord::new();
    assert_eq!(c.lowest_score, -99);
    assert_eq!(c.total_score, 99);
    c.max_chipin = 0x3FFFF;
    c.max_putt = 0x3FFF;
    c.max_exp = 0xFF;
    c.unk = 0xFFFF;
    c.array[3] = 7;
    let bytes = c.write().unwrap();
    assert_eq!(bytes.len(), 3 + 18 + 4 + 24);
    assert_eq!(CRecord::read(&bytes), Ok(c.clone()));
    c.max_putt = 0x4000;
    assert_eq!(c.write(), Err(CodecError::OutOfRange));
}

#[test]
fn rank_classes() {
    assert_eq!(Rank::from_i8(0).unwrap().class(), Class::G);
    assert_eq!(Rank::from_i8(5).unwrap().class(), Class::F);
    assert_eq!(Rank::from_i8(31).unwrap().class(), Class::S);
    assert!(Rank::from_i8(32).is_none());
    assert_eq!(CharID::from_index(4), Some(CharID::Chocola));
    assert_eq!(CharID::from_index(8), None);
    assert_eq!(CharID::Sect.to_index(), 7);
}

fn credentials(user: &[u8]) -> IDPass {
    let mut username = user.to_vec();
    username.resize(17, 0);
    let mut password = b"secret".to_vec();
    password.resize(17, 0);
    IDPass { username, password, version: 956 }
}

#[test]
fn text_fields_must_be_utf8() {
    let good = Packet::SEND_IDPASS(credentials("jos\u{e9}".as_bytes()));
    check_frame(good, 4);
    // bytes after the first null are not text and are not checked
    let mut tail = credentials(b"bob");
    tail.username[10] = 0xFF;
    check_frame(Packet::SEND_IDPASS_G(tail), 4);
    let bad = Packet::SEND_IDPASS(credentials(&[0x62, 0xFF, 0x62]));
    assert!(!bad.fits());
    assert_eq!(encode_frame(&bad, 0), Err(CodecError::OutOfRange));
    let mut frame = encode_frame(&Packet::SEND_IDPASS(credentials(b"bbb")), 0).unwrap();
    frame[7] = 0xFF;
    assert!(matches!(read_frame(&frame), FrameRead::Invalid));
    assert_eq!(until_nul(&b"ab\0cd".to_vec()), b"ab".to_vec());
}

#[test]
fn counted_arrays_round_trip() {
    for pid in [0i16, 1, 32767] {
        check_frame(Packet::SEND_SELLITEMLIST { count: 2, items: vec![1, 2, 3, 4, 5, 6] }, pid);
        check_frame(Packet::PKT_132 { count: 0, items: vec![] }, pid);
        check_frame(Packet::SEND_CHRUID { count: 3, cid: 600, chr_uids: vec![7, 8] }, pid);
        check_frame(Packet::PKT_183 { count: 1, entries: vec![0; 13] }, pid);
        check_frame(Packet::PKT_316 { len: 2, message: vec![0x41, 0x42] }, pid);
        let mut name = vec![0u16; 19];
        name[0] = 0x41;
        check_frame(Packet::SEND_MESSAGE { cid: 600, msg_type: 0, server_id: 1, name, len: 1, message: vec![0x48] }, pid);
    }
}

#[test]
fn counted_array_bytes_are_exact() {
    let bytes = encode_frame(&Packet::PKT_132 { count: 2, items: vec![0x01020304, 5] }, 0).unwrap();
    assert_eq!(bytes, vec![16, 0, 132, 0, 0, 0, 2, 0, 0, 0, 4, 3, 2, 1, 5, 0, 0, 0]);
}

#[test]
fn counted_arrays_must_agree_with_their_count() {
    assert_eq!(encode_frame(&Packet::PKT_132 { count: 2, items: vec![1] }, 0), Err(CodecError::OutOfRange));
    assert_eq!(encode_frame(&Packet::SEND_SELLITEMLIST { count: 1, items: vec![1, 2] }, 0), Err(CodecError::OutOfRange));
    assert_eq!(encode_frame(&Packet::PKT_132 { count: 0x8000_0000, items: vec![] }, 0), Err(CodecError::OutOfRange));
    // a count larger than the body
    assert!(matches!(read_frame(&[8, 0, 132, 0, 0, 0, 5, 0, 0, 0]), FrameRead::Invalid));
    // a negative count
    assert!(matches!(read_frame(&[8, 0, 132, 0, 0, 0, 0xFF, 0xFF, 0xFF, 0xFF]), FrameRead::Invalid));
}
