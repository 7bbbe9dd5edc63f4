use osus_proxy::bancho::decode_bancho_packets;
use osus_proxy::bancho::encode_bancho_packets;
use osus_proxy::bancho::BanchoPacket;
use osus_proxy::bancho::Country;
use osus_proxy::bancho::OsuMessage;
use osus_proxy::bancho::UserAction;
use osus_proxy::preferences::BeatmapMirror;
use osus_proxy::preferences::Preferences;
use osus_proxy::rewrite::process_bancho_packets;
use osus_proxy::rewrite::process_packet;

fn preferences(fake_supporter: bool, fake_country: Option<Country>, user_id: Option<i32>) -> Preferences {
    Preferences {
        server_address: "ppy.sh".to_string(),
        fake_supporter,
        beatmap_mirror: BeatmapMirror::Chimu,
        fake_country,
        user_id,
    }
}

fn process(preferences: &mut Preferences, packets: Vec<BanchoPacket>) -> Vec<BanchoPacket> {
    let mut packets = packets;
    process_bancho_packets(preferences, &mut packets, "ppy.sh");
    packets
}

fn presence(user_id: i32, country_code: u8) -> BanchoPacket {
    BanchoPacket::UserPresence {
        user_id,
        name: "player".to_string(),
        utc_offset: 24,
        country_code,
        bancho_privileges: 1,
        longitude: 12.5f32.to_bits(),
        latitude: 48.25f32.to_bits(),
        global_rank: 1000,
    }
}

fn action(action: UserAction) -> BanchoPacket {
    BanchoPacket::ChangeAction {
        action,
        info_text: "browsing".to_string(),
        map_md5: String::new(),
        mods: 0,
        mode: 0,
        map_id: 0,
    }
}

fn chat(text: &str) -> OsuMessage {
    OsuMessage {
        sender: "peppy".to_string(),
        text: text.to_string(),
        recipient: "#osu".to_string(),
        sender_id: 2,
    }
}

#[test]
fn privilege_gets_the_supporter_bit_when_spoofing() {
    let mut prefs = preferences(true, None, None);
    let out = process(&mut prefs, vec![BanchoPacket::Privilege { privileges_bitfield: 0 }]);
    assert_eq!(out, vec![BanchoPacket::Privilege { privileges_bitfield: 0b100 }]);
}

#[test]
fn privilege_is_unchanged_without_spoofing() {
    let mut prefs = preferences(false, None, None);
    let out = process(&mut prefs, vec![BanchoPacket::Privilege { privileges_bitfield: 0 }]);
    assert_eq!(out, vec![BanchoPacket::Privilege { privileges_bitfield: 0 }]);
}

#[test]
fn privilege_keeps_its_other_bits() {
    let mut prefs = preferences(true, None, None);
    let out = process(&mut prefs, vec![BanchoPacket::Privilege { privileges_bitfield: 0b1001 }]);
    assert_eq!(out, vec![BanchoPacket::Privilege { privileges_bitfield: 0b1101 }]);
}

#[test]
fn privilege_with_the_bit_set_stays_as_it_is() {
    let mut prefs = preferences(true, None, None);
    let out = process(&mut prefs, vec![BanchoPacket::Privilege { privileges_bitfield: 0b0101 }]);
    assert_eq!(out, vec![BanchoPacket::Privilege { privileges_bitfield: 0b0101 }]);
}

#[test]
fn osu_direct_is_dropped_when_spoofing() {
    let mut prefs = preferences(true, None, None);
    let out = process(
        &mut prefs,
        vec![BanchoPacket::UserId(1), action(UserAction::OsuDirect), BanchoPacket::UserId(2)],
    );
    assert_eq!(out, vec![BanchoPacket::UserId(1), BanchoPacket::UserId(2)]);
}

#[test]
fn osu_direct_passes_without_spoofing() {
    let mut prefs = preferences(false, None, None);
    let out = process(&mut prefs, vec![action(UserAction::OsuDirect)]);
    assert_eq!(out, vec![action(UserAction::OsuDirect)]);
}

#[test]
fn other_actions_pass_when_spoofing() {
    let mut prefs = preferences(true, None, None);
    let out = process(&mut prefs, vec![action(UserAction::Playing), action(UserAction::Idle)]);
    assert_eq!(out, vec![action(UserAction::Playing), action(UserAction::Idle)]);
}

#[test]
fn every_osu_direct_of_a_body_is_dropped() {
    let mut prefs = preferences(true, None, None);
    let out = process(
        &mut prefs,
        vec![
            action(UserAction::OsuDirect),
            action(UserAction::Lobby),
            action(UserAction::OsuDirect),
            action(UserAction::OsuDirect),
        ],
    );
    assert_eq!(out, vec![action(UserAction::Lobby)]);
}

#[test]
fn country_is_overwritten_for_the_logged_in_user_only() {
    let mut prefs = preferences(false, Some(Country::Japan), Some(42));
    let out = process(&mut prefs, vec![presence(42, 225), presence(99, 225)]);
    assert_eq!(out, vec![presence(42, 111), presence(99, 225)]);
}

#[test]
fn country_is_kept_when_none_is_set() {
    let mut prefs = preferences(true, None, Some(42));
    let out = process(&mut prefs, vec![presence(42, 225)]);
    assert_eq!(out, vec![presence(42, 225)]);
}

#[test]
fn country_is_kept_when_nobody_is_logged_in() {
    let mut prefs = preferences(true, Some(Country::Japan), None);
    let out = process(&mut prefs, vec![presence(42, 225)]);
    assert_eq!(out, vec![presence(42, 225)]);
}

#[test]
fn user_id_is_stored() {
    let mut prefs = preferences(true, None, None);
    let out = process(&mut prefs, vec![BanchoPacket::UserId(42)]);
    assert_eq!(out, vec![BanchoPacket::UserId(42)]);
    assert_eq!(prefs.user_id, Some(42));
}

#[test]
fn the_last_user_id_of_a_body_stays() {
    let mut prefs = preferences(true, None, Some(1));
    process(&mut prefs, vec![BanchoPacket::UserId(2), BanchoPacket::UserId(3)]);
    assert_eq!(prefs.user_id, Some(3));
}

#[test]
fn presence_before_the_user_id_is_decided_without_it() {
    let mut prefs = preferences(false, Some(Country::Japan), None);
    let out = process(&mut prefs, vec![presence(42, 225), BanchoPacket::UserId(42), presence(42, 225)]);
    assert_eq!(out, vec![presence(42, 225), BanchoPacket::UserId(42), presence(42, 111)]);
}

#[test]
fn only_the_user_id_changes_in_the_preferences() {
    let mut prefs = preferences(true, Some(Country::Germany), None);
    process(&mut prefs, vec![BanchoPacket::UserId(7), action(UserAction::OsuDirect), presence(7, 1)]);
    assert_eq!(prefs.server_address, "ppy.sh");
    assert!(prefs.fake_supporter);
    assert_eq!(prefs.beatmap_mirror, BeatmapMirror::Chimu);
    assert_eq!(prefs.fake_country, Some(Country::Germany));
    assert_eq!(prefs.user_id, Some(7));
}

#[test]
fn end_to_end_country_spoof() {
    let mut prefs = preferences(false, Some(Country::Japan), None);
    let body = encode_bancho_packets(vec![BanchoPacket::UserId(42), presence(42, 225)]).unwrap();
    let (mut packets, leftover) = decode_bancho_packets(&body).unwrap();
    assert!(leftover.is_empty());
    process_bancho_packets(&mut prefs, &mut packets, "ppy.sh");
    let out = encode_bancho_packets(packets).unwrap();
    let expected = encode_bancho_packets(vec![BanchoPacket::UserId(42), presence(42, 111)]).unwrap();
    assert_eq!(out, expected);
    assert_eq!(decode_bancho_packets(&out), Ok((vec![BanchoPacket::UserId(42), presence(42, 111)], vec![])));
}

#[test]
fn other_packets_are_untouched() {
    let mut prefs = preferences(true, Some(Country::Japan), Some(42));
    let packets = vec![
        BanchoPacket::Other { id: 75, data: vec![1, 2, 3] },
        BanchoPacket::Other { id: 4, data: vec![] },
    ];
    assert_eq!(process(&mut prefs, packets.clone()), packets);
}

#[test]
fn outbound_now_playing_link_goes_to_the_server() {
    let mut prefs = preferences(true, None, None);
    let text = "\u{1}ACTION is listening to [https://osu.osus.zihad.dev/beatmapsets/1#/2 a - b]\u{1}";
    let out = process(
        &mut prefs,
        vec![
            BanchoPacket::SendPublicMessage(chat(text)),
            BanchoPacket::SendPrivateMessage(chat(text)),
        ],
    );
    let expected = "\u{1}ACTION is listening to [https://osu.ppy.sh/beatmapsets/1#/2 a - b]\u{1}";
    assert_eq!(
        out,
        vec![
            BanchoPacket::SendPublicMessage(chat(expected)),
            BanchoPacket::SendPrivateMessage(chat(expected)),
        ]
    );
}

#[test]
fn inbound_now_playing_link_goes_through_the_proxy() {
    let mut prefs = preferences(true, None, None);
    let text = "\u{1}ACTION is listening to [https://osu.ppy.sh/beatmapsets/1#/2 a - b]\u{1}";
    let out = process(&mut prefs, vec![BanchoPacket::SendMessage(chat(text))]);
    let expected = "\u{1}ACTION is listening to [https://osu.osus.zihad.dev/beatmapsets/1#/2 a - b]\u{1}";
    assert_eq!(out, vec![BanchoPacket::SendMessage(chat(expected))]);
}

#[test]
fn every_link_of_a_line_is_rewritten() {
    let mut prefs = preferences(true, None, None);
    let text = "ACTION is listening to https://osu.osus.zihad.dev/beatmapsets/1 https://osu.osus.zihad.dev/beatmapsets/2";
    let out = process(&mut prefs, vec![BanchoPacket::SendPublicMessage(chat(text))]);
    let expected = "ACTION is listening to https://osu.ppy.sh/beatmapsets/1 https://osu.ppy.sh/beatmapsets/2";
    assert_eq!(out, vec![BanchoPacket::SendPublicMessage(chat(expected))]);
}

#[test]
fn links_outside_now_playing_lines_are_kept() {
    let mut prefs = preferences(true, None, None);
    let text = "look: https://osu.osus.zihad.dev/beatmapsets/1";
    let packets = vec![
        BanchoPacket::SendPublicMessage(chat(text)),
        BanchoPacket::SendPrivateMessage(chat(text)),
        BanchoPacket::SendMessage(chat("look: https://osu.ppy.sh/beatmapsets/1")),
    ];
    assert_eq!(process(&mut prefs, packets.clone()), packets);
}

#[test]
fn outbound_lines_keep_server_links_and_inbound_lines_proxy_links() {
    let mut prefs = preferences(true, None, None);
    let packets = vec![
        BanchoPacket::SendPublicMessage(chat("ACTION is listening to https://osu.ppy.sh/beatmapsets/1")),
        BanchoPacket::SendMessage(chat("ACTION is listening to https://osu.osus.zihad.dev/beatmapsets/1")),
    ];
    assert_eq!(process(&mut prefs, packets.clone()), packets);
}

#[test]
fn the_target_domain_names_the_server_link() {
    let mut prefs = preferences(true, None, None);
    let mut packets = vec![BanchoPacket::SendMessage(chat(
        "ACTION is listening to https://osu.example.org/beatmapsets/5 and https://osu.ppy.sh/beatmapsets/6",
    ))];
    process_bancho_packets(&mut prefs, &mut packets, "example.org");
    assert_eq!(
        packets,
        vec![BanchoPacket::SendMessage(chat(
            "ACTION is listening to https://osu.osus.zihad.dev/beatmapsets/5 and https://osu.ppy.sh/beatmapsets/6",
        ))]
    );
}

#[test]
fn a_message_keeps_all_but_its_text() {
    let mut prefs = preferences(true, None, None);
    let message = OsuMessage {
        sender: "https://osu.osus.zihad.dev/beatmapsets".to_string(),
        text: "ACTION is listening to https://osu.osus.zihad.dev/beatmapsets".to_string(),
        recipient: "https://osu.osus.zihad.dev/beatmapsets".to_string(),
        sender_id: -5,
    };
    let out = process(&mut prefs, vec![BanchoPacket::SendPublicMessage(message)]);
    assert_eq!(
        out,
        vec![BanchoPacket::SendPublicMessage(OsuMessage {
            sender: "https://osu.osus.zihad.dev/beatmapsets".to_string(),
            text: "ACTION is listening to https://osu.ppy.sh/beatmapsets".to_string(),
            recipient: "https://osu.osus.zihad.dev/beatmapsets".to_string(),
            sender_id: -5,
        })]
    );
}

#[test]
fn process_packet_decides_one_packet() {
    let mut prefs = preferences(true, Some(Country::Japan), None);
    assert_eq!(
        process_packet(&mut prefs, BanchoPacket::UserId(42), "ppy.sh"),
        Some(BanchoPacket::UserId(42))
    );
    assert_eq!(prefs.user_id, Some(42));
    assert_eq!(process_packet(&mut prefs, action(UserAction::OsuDirect), "ppy.sh"), None);
    assert_eq!(process_packet(&mut prefs, presence(42, 3), "ppy.sh"), Some(presence(42, 111)));
    assert_eq!(
        process_packet(&mut prefs, BanchoPacket::Privilege { privileges_bitfield: 1 }, "ppy.sh"),
        Some(BanchoPacket::Privilege { privileges_bitfield: 5 })
    );
}

#[test]
fn an_empty_body_stays_empty() {
    let mut prefs = preferences(true, Some(Country::Japan), Some(1));
    assert_eq!(process(&mut prefs, vec![]), vec![]);
    assert_eq!(prefs.user_id, Some(1));
}
