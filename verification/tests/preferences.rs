use osus_proxy::preferences::BeatmapMirror;
use osus_proxy::preferences::Preferences;

#[test]
fn direct_download_links() {
    assert_eq!(BeatmapMirror::Chimu.direct_download_link(1234, false), "https://api.chimu.moe/d/1234");
    assert_eq!(BeatmapMirror::BeatConnect.direct_download_link(1234, false), "https://beatconnect.io/b/1234");
    assert_eq!(BeatmapMirror::Nerinyan.direct_download_link(1234, false), "https://api.nerinyan.moe/d/1234");
}

#[test]
fn direct_download_link_ignores_the_video_flag() {
    assert_eq!(
        BeatmapMirror::Chimu.direct_download_link(5, true),
        BeatmapMirror::Chimu.direct_download_link(5, false)
    );
}

#[test]
fn direct_download_link_of_edge_numbers() {
    assert_eq!(BeatmapMirror::Chimu.direct_download_link(0, false), "https://api.chimu.moe/d/0");
    assert_eq!(BeatmapMirror::Chimu.direct_download_link(10, false), "https://api.chimu.moe/d/10");
    assert_eq!(
        BeatmapMirror::Chimu.direct_download_link(u32::MAX, false),
        "https://api.chimu.moe/d/4294967295"
    );
}

#[test]
fn mirror_names() {
    assert_eq!(BeatmapMirror::ServerDefault.to_string(), "Server Default");
    assert_eq!(BeatmapMirror::Chimu.to_string(), "chimu.moe");
    assert_eq!(BeatmapMirror::BeatConnect.to_string(), "BeatConnect");
    assert_eq!(BeatmapMirror::Nerinyan.to_string(), "nerinyan.moe");
}

#[test]
fn default_mirror() {
    assert_eq!(BeatmapMirror::default(), BeatmapMirror::Chimu);
}

#[test]
fn default_preferences() {
    let preferences = Preferences::default();
    assert_eq!(preferences.server_address, "ppy.sh");
    assert!(preferences.fake_supporter);
    assert_eq!(preferences.beatmap_mirror, BeatmapMirror::Chimu);
    assert_eq!(preferences.fake_country, None);
    assert_eq!(preferences.user_id, None);
}
