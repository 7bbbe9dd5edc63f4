use osus_proxy::bancho::encode_bancho_packets;
use osus_proxy::bancho::BanchoPacket;
use osus_proxy::bancho::Country;
use osus_proxy::bancho::UserAction;
use osus_proxy::error::DecodeError;
use osus_proxy::preferences::BeatmapMirror;
use osus_proxy::preferences::Preferences;
use osus_proxy::routing::default_target_domain_name;
use osus_proxy::routing::find_subdomain;
use osus_proxy::routing::host_name;
use osus_proxy::routing::redirect_download;
use osus_proxy::routing::rewrite_body;
use osus_proxy::routing::rewrites_request;
use osus_proxy::routing::rewrites_response;
use osus_proxy::routing::source_domain_name;
use osus_proxy::routing::BodyError;

fn preferences(mirror: BeatmapMirror) -> Preferences {
    Preferences {
        server_address: "ppy.sh".to_string(),
        fake_supporter: true,
        beatmap_mirror: mirror,
        fake_country: Some(Country::Japan),
        user_id: None,
    }
}

#[test]
fn domains() {
    assert_eq!(source_domain_name(), "osus.zihad.dev");
    assert_eq!(default_target_domain_name(), "osu.ppy.sh");
}

#[test]
fn host_name_joins_with_a_dot() {
    assert_eq!(host_name("c4", "ppy.sh"), "c4.ppy.sh");
    assert_eq!(host_name("osu", "example.org"), "osu.example.org");
}

#[test]
fn every_served_subdomain_is_found() {
    for subdomain in ["c", "ce", "c4", "osu", "b", "api", "a"] {
        let host = format!("{}.osus.zihad.dev", subdomain);
        assert_eq!(find_subdomain(&host), Some(subdomain));
    }
}

#[test]
fn other_hosts_are_not_found() {
    for host in [
        "",
        "osus.zihad.dev",
        "c5.osus.zihad.dev",
        "c.osus.zihad.dev.",
        "C.osus.zihad.dev",
        "c.ppy.sh",
        "xc.osus.zihad.dev",
        "c.osus.zihad.dev:443",
    ] {
        assert_eq!(find_subdomain(host), None);
    }
}

#[test]
fn requests_are_rewritten_for_logged_in_posts_to_the_root() {
    assert!(rewrites_request(true, "/", true));
    assert!(!rewrites_request(false, "/", true));
    assert!(!rewrites_request(true, "/", false));
    assert!(!rewrites_request(true, "/web", true));
    assert!(!rewrites_request(true, "", true));
}

#[test]
fn responses_are_rewritten_for_posts_to_the_root() {
    assert!(rewrites_response("/", true));
    assert!(!rewrites_response("/", false));
    assert!(!rewrites_response("/d/1", true));
}

#[test]
fn download_is_redirected_to_the_mirror() {
    let prefs = preferences(BeatmapMirror::Chimu);
    assert_eq!(
        redirect_download(&prefs, "osu.osus.zihad.dev", true, "/d/1234"),
        Some("https://api.chimu.moe/d/1234".to_string())
    );
}

#[test]
fn download_without_video_is_redirected_too() {
    let prefs = preferences(BeatmapMirror::Nerinyan);
    assert_eq!(
        redirect_download(&prefs, "osu.osus.zihad.dev", true, "/d/1234n"),
        Some("https://api.nerinyan.moe/d/1234".to_string())
    );
}

#[test]
fn download_goes_to_each_mirror() {
    assert_eq!(
        redirect_download(&preferences(BeatmapMirror::BeatConnect), "osu.osus.zihad.dev", true, "/d/7"),
        Some("https://beatconnect.io/b/7".to_string())
    );
}

#[test]
fn download_with_a_plus_or_leading_zeros_is_read_as_a_number() {
    let prefs = preferences(BeatmapMirror::Chimu);
    assert_eq!(
        redirect_download(&prefs, "osu.osus.zihad.dev", true, "/d/+0042"),
        Some("https://api.chimu.moe/d/42".to_string())
    );
}

#[test]
fn download_of_the_largest_number() {
    let prefs = preferences(BeatmapMirror::Chimu);
    assert_eq!(
        redirect_download(&prefs, "osu.osus.zihad.dev", true, "/d/4294967295"),
        Some("https://api.chimu.moe/d/4294967295".to_string())
    );
    assert_eq!(redirect_download(&prefs, "osu.osus.zihad.dev", true, "/d/4294967296"), None);
}

#[test]
fn download_stays_with_the_server_by_default() {
    let prefs = preferences(BeatmapMirror::ServerDefault);
    assert_eq!(redirect_download(&prefs, "osu.osus.zihad.dev", true, "/d/1234"), None);
}

#[test]
fn only_gets_of_download_paths_under_the_download_host_are_redirected() {
    let prefs = preferences(BeatmapMirror::Chimu);
    assert_eq!(redirect_download(&prefs, "osu.osus.zihad.dev", false, "/d/1234"), None);
    assert_eq!(redirect_download(&prefs, "c.osus.zihad.dev", true, "/d/1234"), None);
    assert_eq!(redirect_download(&prefs, "osu.ppy.sh", true, "/d/1234"), None);
    assert_eq!(redirect_download(&prefs, "osu.osus.zihad.dev", true, "/beatmaps/1234"), None);
    assert_eq!(redirect_download(&prefs, "osu.osus.zihad.dev", true, "/x/d/1234"), None);
}

#[test]
fn download_paths_that_spell_no_number_are_not_redirected() {
    let prefs = preferences(BeatmapMirror::Chimu);
    for path in ["/d/", "/d/abc", "/d/12a", "/d/-5", "/d/1 2", "/d/n", "/d/1.5"] {
        assert_eq!(redirect_download(&prefs, "osu.osus.zihad.dev", true, path), None);
    }
}

#[test]
fn download_path_loses_every_marker_and_every_n() {
    let prefs = preferences(BeatmapMirror::Chimu);
    assert_eq!(
        redirect_download(&prefs, "osu.osus.zihad.dev", true, "/d/1n2/d/3n"),
        Some("https://api.chimu.moe/d/123".to_string())
    );
}

#[test]
fn rewrite_body_decodes_rewrites_and_encodes() {
    let mut prefs = preferences(BeatmapMirror::Chimu);
    let presence = |code: u8| BanchoPacket::UserPresence {
        user_id: 42,
        name: "peppy".to_string(),
        utc_offset: 24,
        country_code: code,
        bancho_privileges: 1,
        longitude: 0,
        latitude: 0,
        global_rank: 1,
    };
    let change = BanchoPacket::ChangeAction {
        action: UserAction::OsuDirect,
        info_text: String::new(),
        map_md5: String::new(),
        mods: 0,
        mode: 0,
        map_id: 0,
    };
    let body = encode_bancho_packets(vec![
        BanchoPacket::UserId(42),
        change,
        BanchoPacket::Privilege { privileges_bitfield: 1 },
        presence(225),
    ])
    .unwrap();
    let expected = encode_bancho_packets(vec![
        BanchoPacket::UserId(42),
        BanchoPacket::Privilege { privileges_bitfield: 5 },
        presence(111),
    ])
    .unwrap();
    assert_eq!(rewrite_body(&mut prefs, &body, "ppy.sh"), Ok((expected, vec![])));
    assert_eq!(prefs.user_id, Some(42));
}

#[test]
fn rewrite_body_hands_back_the_leftover_and_leaves_it_out() {
    let mut prefs = preferences(BeatmapMirror::Chimu);
    let mut body = encode_bancho_packets(vec![BanchoPacket::UserId(42)]).unwrap();
    let clean = body.clone();
    body.extend_from_slice(&[9, 9, 9]);
    assert_eq!(rewrite_body(&mut prefs, &body, "ppy.sh"), Ok((clean, vec![9, 9, 9])));
}

#[test]
fn rewrite_body_of_a_bad_body_changes_nothing() {
    let mut prefs = preferences(BeatmapMirror::Chimu);
    let mut body = encode_bancho_packets(vec![BanchoPacket::UserId(42)]).unwrap();
    body.extend_from_slice(&[200, 0, 0, 50, 0, 0, 0, 1]);
    assert_eq!(
        rewrite_body(&mut prefs, &body, "ppy.sh"),
        Err(BodyError::Decode(DecodeError::UnexpectedEof))
    );
    assert_eq!(prefs.user_id, None);
}

#[test]
fn rewrite_body_fails_on_a_length_past_the_end() {
    let mut prefs = preferences(BeatmapMirror::Chimu);
    let body = [5, 0, 0, 100, 0, 0, 0, 42, 0, 0, 0];
    assert_eq!(
        rewrite_body(&mut prefs, &body, "ppy.sh"),
        Err(BodyError::Decode(DecodeError::UnexpectedEof))
    );
    assert_eq!(prefs.user_id, None);
}

#[test]
fn rewrite_body_of_nothing_is_nothing() {
    let mut prefs = preferences(BeatmapMirror::Chimu);
    assert_eq!(rewrite_body(&mut prefs, &[], "ppy.sh"), Ok((vec![], vec![])));
}
