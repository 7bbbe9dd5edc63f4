//! The rules by which the proxy rewrites the packets of a body on their
//! way through: one decision for each packet, in the body's order, with the
//! preferences as the state that is carried from packet to packet.

use crate::bancho::action::UserAction;
use crate::bancho::packet::BanchoPacket;
use crate::bancho::packet::PacketView;
use crate::bancho::stream::packet_views;
use crate::bancho::wire::MessageView;
use crate::bancho::wire::OsuMessage;
use crate::preferences::Preferences;
use crate::preferences::PreferencesView;
use crate::text::lemma_replace_without_occurrence;
use crate::text::occurs_in;
use crate::text::replace_all;
use crate::text::str_contains;
use crate::text::str_replace;
use vstd::prelude::*;
use vstd::string::StringExecFns;

verus! {

/// The bit of the privilege field that marks a supporter.
pub const SUPPORTER_BIT: u32 = 0b100;

/// What a chat line holds when the client tells others which beatmap the
/// user is listening to.
pub open spec fn now_playing_marker() -> Seq<char> {
    "ACTION is listening to"@
}

/// How links to beatmap sets begin where they go through the proxy.
pub open spec fn proxy_beatmaps_url() -> Seq<char> {
    "https://osu.osus.zihad.dev/beatmapsets"@
}

/// How links to beatmap sets begin on the server behind the proxy.
pub open spec fn server_beatmaps_url(target_domain: Seq<char>) -> Seq<char> {
    "https://osu."@ + target_domain + "/beatmapsets"@
}

/// The text of a chat line that leaves the client: in a now-playing line,
/// links through the proxy become links to the server.
pub open spec fn outbound_text(text: Seq<char>, target_domain: Seq<char>) -> Seq<char> {
    if occurs_in(text, now_playing_marker()) {
        replace_all(text, proxy_beatmaps_url(), server_beatmaps_url(target_domain))
    } else {
        text
    }
}

/// The text of a chat line that reaches the client: in a now-playing line,
/// links to the server become links through the proxy.
pub open spec fn inbound_text(text: Seq<char>, target_domain: Seq<char>) -> Seq<char> {
    if occurs_in(text, now_playing_marker()) {
        replace_all(text, server_beatmaps_url(target_domain), proxy_beatmaps_url())
    } else {
        text
    }
}

/// What becomes of one packet: `None` where it is dropped, else the packet
/// that goes on in its place.
///
/// - `Privilege`: the supporter bit is set where the preferences ask for it.
/// - `SendPublicMessage`, `SendPrivateMessage`: the text is rewritten as an
///   outbound line; `SendMessage`: as an inbound line.
/// - `ChangeAction`: dropped where the action is `OsuDirect` and the
///   preferences ask for the supporter flag.
/// - `UserPresence`: the country is overwritten where one is set and the
///   packet is about the user who is logged in.
/// - Every other packet goes on as it is.
pub open spec fn rewrite_packet(
    preferences: PreferencesView,
    target_domain: Seq<char>,
    packet: PacketView,
) -> Option<PacketView> {
    match packet {
        PacketView::SendPublicMessage(message) => Some(
            PacketView::SendPublicMessage(
                MessageView { text: outbound_text(message.text, target_domain), ..message },
            ),
        ),
        PacketView::SendPrivateMessage(message) => Some(
            PacketView::SendPrivateMessage(
                MessageView { text: outbound_text(message.text, target_domain), ..message },
            ),
        ),
        PacketView::SendMessage(message) => Some(
            PacketView::SendMessage(
                MessageView { text: inbound_text(message.text, target_domain), ..message },
            ),
        ),
        PacketView::Privilege { privileges_bitfield } => if preferences.fake_supporter {
            Some(PacketView::Privilege { privileges_bitfield: privileges_bitfield | SUPPORTER_BIT })
        } else {
            Some(packet)
        },
        PacketView::ChangeAction { action, .. } => if action == UserAction::OsuDirect
            && preferences.fake_supporter {
            None
        } else {
            Some(packet)
        },
        PacketView::UserPresence {
            user_id,
            name,
            utc_offset,
            country_code,
            bancho_privileges,
            longitude,
            latitude,
            global_rank,
        } => if preferences.fake_country is Some && preferences.user_id == Some(user_id) {
            Some(
                PacketView::UserPresence {
                    user_id,
                    name,
                    utc_offset,
                    country_code: preferences.fake_country->0.code(),
                    bancho_privileges,
                    longitude,
                    latitude,
                    global_rank,
                },
            )
        } else {
            Some(packet)
        },
        _ => Some(packet),
    }
}

/// The preferences after one packet: a `UserId` packet tells who is logged
/// in; nothing else changes them.
pub open spec fn preferences_after(preferences: PreferencesView, packet: PacketView)
    -> PreferencesView {
    match packet {
        PacketView::UserId(user_id) => PreferencesView { user_id: Some(user_id), ..preferences },
        _ => preferences,
    }
}

/// What becomes of a body's packets, and the preferences after the last of
/// them. Each packet is decided under the preferences as the packets before
/// it left them.
pub open spec fn rewrite_stream(
    preferences: PreferencesView,
    target_domain: Seq<char>,
    packets: Seq<PacketView>,
) -> (Seq<PacketView>, PreferencesView)
    decreases packets.len(),
{
    if packets.len() == 0 {
        (Seq::empty(), preferences)
    } else {
        let rest = rewrite_stream(
            preferences_after(preferences, packets[0]),
            target_domain,
            packets.skip(1),
        );
        match rewrite_packet(preferences, target_domain, packets[0]) {
            Some(packet) => (seq![packet] + rest.0, rest.1),
            None => (rest.0, rest.1),
        }
    }
}

/// What a packet that may have been dropped says.
pub open spec fn kept_view(kept: Option<BanchoPacket>) -> Option<PacketView> {
    match kept {
        Some(packet) => Some(packet@),
        None => None,
    }
}

/// The text of an outbound chat line, rewritten.
fn rewrite_outbound(text: String, target_domain: &str) -> (rewritten: String)
    ensures
        rewritten@ == outbound_text(text@, target_domain@),
{
    if str_contains(text.as_str(), "ACTION is listening to") {
        let mut server_url = String::from_str("https://osu.");
        server_url.append(target_domain);
        server_url.append("/beatmapsets");
        proof {
            reveal_strlit("https://osu.osus.zihad.dev/beatmapsets");
        }
        str_replace(text.as_str(), "https://osu.osus.zihad.dev/beatmapsets", server_url.as_str())
    } else {
        text
    }
}

/// The text of an inbound chat line, rewritten.
fn rewrite_inbound(text: String, target_domain: &str) -> (rewritten: String)
    ensures
        rewritten@ == inbound_text(text@, target_domain@),
{
    if str_contains(text.as_str(), "ACTION is listening to") {
        let mut server_url = String::from_str("https://osu.");
        server_url.append(target_domain);
        server_url.append("/beatmapsets");
        proof {
            reveal_strlit("https://osu.");
        }
        str_replace(text.as_str(), server_url.as_str(), "https://osu.osus.zihad.dev/beatmapsets")
    } else {
        text
    }
}

/// Decides one packet: hands back the packet that goes on in its place, or
/// `None` where it is dropped, and notes in the preferences who is logged
/// in where the packet says so.
pub fn process_packet(preferences: &mut Preferences, packet: BanchoPacket, target_domain: &str)
    -> (kept: Option<BanchoPacket>)
    ensures
        kept_view(kept) == rewrite_packet(old(preferences)@, target_domain@, packet@),
        final(preferences)@ == preferences_after(old(preferences)@, packet@),
{
    match packet {
        BanchoPacket::SendPublicMessage(message) => {
            let text = rewrite_outbound(message.text, target_domain);
            Some(
                BanchoPacket::SendPublicMessage(
                    OsuMessage {
                        sender: message.sender,
                        text,
                        recipient: message.recipient,
                        sender_id: message.sender_id,
                    },
                ),
            )
        },
        BanchoPacket::UserId(user_id) => {
            preferences.user_id = Some(user_id);
            Some(BanchoPacket::UserId(user_id))
        },
        BanchoPacket::SendPrivateMessage(message) => {
            let text = rewrite_outbound(message.text, target_domain);
            Some(
                BanchoPacket::SendPrivateMessage(
                    OsuMessage {
                        sender: message.sender,
                        text,
                        recipient: message.recipient,
                        sender_id: message.sender_id,
                    },
                ),
            )
        },
        BanchoPacket::SendMessage(message) => {
            let text = rewrite_inbound(message.text, target_domain);
            Some(
                BanchoPacket::SendMessage(
                    OsuMessage {
                        sender: message.sender,
                        text,
                        recipient: message.recipient,
                        sender_id: message.sender_id,
                    },
                ),
            )
        },
        BanchoPacket::Privilege { privileges_bitfield } => {
            if preferences.fake_supporter {
                Some(
                    BanchoPacket::Privilege {
                        privileges_bitfield: privileges_bitfield | SUPPORTER_BIT,
                    },
                )
            } else {
                Some(BanchoPacket::Privilege { privileges_bitfield })
            }
        },
        BanchoPacket::ChangeAction { action, info_text, map_md5, mods, mode, map_id } => {
            if action.is_osu_direct() && preferences.fake_supporter {
                None
            } else {
                Some(BanchoPacket::ChangeAction { action, info_text, map_md5, mods, mode, map_id })
            }
        },
        BanchoPacket::UserPresence {
            user_id,
            name,
            utc_offset,
            country_code,
            bancho_privileges,
            longitude,
            latitude,
            global_rank,
        } => {
            let mut shown = country_code;
            if let Some(country) = &preferences.fake_country {
                if let Some(logged_in_user_id) = preferences.user_id {
                    if logged_in_user_id == user_id {
                        shown = country.as_u8();
                    }
                }
            }
            Some(
                BanchoPacket::UserPresence {
                    user_id,
                    name,
                    utc_offset,
                    country_code: shown,
                    bancho_privileges,
                    longitude,
                    latitude,
                    global_rank,
                },
            )
        },
        BanchoPacket::Other { id, data } => Some(BanchoPacket::Other { id, data }),
    }
}

/// The result for a whole body, of which `done` went on already and the
/// rest comes to `rest`.
pub open spec fn rewrite_resume(done: Seq<PacketView>, rest: (Seq<PacketView>, PreferencesView))
    -> (Seq<PacketView>, PreferencesView) {
    (done + rest.0, rest.1)
}

/// Rewrites the packets of one body in place, in their order: some change,
/// some are dropped, the rest stay as they are. The preferences come out as
/// the last packet left them.
pub fn process_bancho_packets(
    preferences: &mut Preferences,
    packets: &mut Vec<BanchoPacket>,
    target_domain: &str,
)
    ensures
        (packet_views(final(packets)@), final(preferences)@) == rewrite_stream(
            old(preferences)@,
            target_domain@,
            packet_views(old(packets)@),
        ),
{
    let mut incoming: Vec<BanchoPacket> = Vec::new();
    core::mem::swap(packets, &mut incoming);
    let ghost all = packet_views(incoming@);
    let ghost whole = rewrite_stream(preferences@, target_domain@, all);
    proof {
        assert(all.skip(0) =~= all);
        assert(packet_views(packets@) =~= Seq::<PacketView>::empty());
        assert(Seq::<PacketView>::empty() + whole.0 =~= whole.0);
    }
    for packet in it: incoming
        invariant
            all == packet_views(it.seq()),
            whole == rewrite_resume(
                packet_views(packets@),
                rewrite_stream(preferences@, target_domain@, all.skip(it.index() as int)),
            ),
    {
        let ghost done = packet_views(packets@);
        let ghost ahead = all.skip(it.index() as int);
        let ghost before = preferences@;
        let kept = process_packet(preferences, packet, target_domain);
        proof {
            assert(ahead[0] == packet@);
            assert(ahead.skip(1) =~= all.skip(it.index() + 1));
        }
        if let Some(p) = kept {
            proof {
                let rest = rewrite_stream(preferences@, target_domain@, ahead.skip(1));
                assert(packet_views(packets@.push(p)) =~= done + seq![p@]);
                assert(done + (seq![p@] + rest.0) =~= (done + seq![p@]) + rest.0);
            }
            packets.push(p);
        }
    }
    proof {
        assert(all.skip(all.len() as int) =~= Seq::<PacketView>::empty());
        assert(packet_views(packets@) + Seq::<PacketView>::empty() =~= packet_views(packets@));
    }
}

/// Whether the packet is the probe that the client sends when the user
/// opens the in-game beatmap browser.
pub open spec fn is_osu_direct_probe(packet: PacketView) -> bool {
    packet is ChangeAction && packet->action == UserAction::OsuDirect
}

/// Setting the supporter bit sets that bit and no other.
pub proof fn lemma_supporter_bit(bits: u32)
    ensures
        (bits | SUPPORTER_BIT) & SUPPORTER_BIT == SUPPORTER_BIT,
        (bits | SUPPORTER_BIT) & !SUPPORTER_BIT == bits & !SUPPORTER_BIT,
        0u32 | SUPPORTER_BIT == 0b100,
{
    assert((bits | 0b100u32) & 0b100u32 == 0b100u32) by (bit_vector);
    assert((bits | 0b100u32) & !0b100u32 == bits & !0b100u32) by (bit_vector);
    assert(0u32 | 0b100u32 == 0b100u32) by (bit_vector);
}

/// A chat line without a link of the kind that its direction exchanges
/// goes on as it is, now-playing line or not.
pub proof fn lemma_line_without_link_is_kept(text: Seq<char>, target_domain: Seq<char>)
    ensures
        !occurs_in(text, proxy_beatmaps_url()) ==> outbound_text(text, target_domain) == text,
        !occurs_in(text, server_beatmaps_url(target_domain)) ==> inbound_text(text, target_domain)
            == text,
{
    reveal_strlit("https://osu.osus.zihad.dev/beatmapsets");
    reveal_strlit("https://osu.");
    if !occurs_in(text, proxy_beatmaps_url()) {
        lemma_replace_without_occurrence(
            text,
            proxy_beatmaps_url(),
            server_beatmaps_url(target_domain),
        );
    }
    if !occurs_in(text, server_beatmaps_url(target_domain)) {
        lemma_replace_without_occurrence(
            text,
            server_beatmaps_url(target_domain),
            proxy_beatmaps_url(),
        );
    }
}

/// Only the user id among the preferences ever changes, and only a `UserId`
/// packet changes it.
pub proof fn lemma_preferences_kept(
    preferences: PreferencesView,
    target_domain: Seq<char>,
    packets: Seq<PacketView>,
)
    ensures
        ({
            let after = rewrite_stream(preferences, target_domain, packets).1;
            &&& after.server_address == preferences.server_address
            &&& after.fake_supporter == preferences.fake_supporter
            &&& after.beatmap_mirror == preferences.beatmap_mirror
            &&& after.fake_country == preferences.fake_country
            &&& (forall|i: int| 0 <= i < packets.len() ==> !(#[trigger] packets[i] is UserId))
                ==> after == preferences
        }),
    decreases packets.len(),
{
    if packets.len() > 0 {
        let rest = packets.skip(1);
        lemma_preferences_kept(preferences_after(preferences, packets[0]), target_domain, rest);
        if forall|i: int| 0 <= i < packets.len() ==> !(#[trigger] packets[i] is UserId) {
            assert(!(packets[0] is UserId));
            assert forall|i: int| 0 <= i < rest.len() implies !(#[trigger] rest[i] is UserId) by {
                assert(rest[i] == packets[i + 1]);
            }
        }
    }
}

/// With the supporter flag forced on, the beatmap browser's probe never
/// goes on to the server: none is among the packets that come out.
pub proof fn lemma_osu_direct_suppressed(
    preferences: PreferencesView,
    target_domain: Seq<char>,
    packets: Seq<PacketView>,
)
    requires
        preferences.fake_supporter,
    ensures
        forall|i: int|
            0 <= i < rewrite_stream(preferences, target_domain, packets).0.len()
                ==> !is_osu_direct_probe(
                #[trigger] rewrite_stream(preferences, target_domain, packets).0[i],
            ),
    decreases packets.len(),
{
    if packets.len() > 0 {
        let rest = rewrite_stream(
            preferences_after(preferences, packets[0]),
            target_domain,
            packets.skip(1),
        );
        lemma_osu_direct_suppressed(
            preferences_after(preferences, packets[0]),
            target_domain,
            packets.skip(1),
        );
        let out = rewrite_stream(preferences, target_domain, packets).0;
        assert forall|i: int| 0 <= i < out.len() implies !is_osu_direct_probe(
            #[trigger] out[i],
        ) by {
            match rewrite_packet(preferences, target_domain, packets[0]) {
                Some(first) => {
                    if i > 0 {
                        assert(out[i] == rest.0[i - 1]);
                    }
                },
                None => {},
            }
        }
    }
}

/// Without the supporter flag no packet is dropped, and `ChangeAction` and
/// `Privilege` packets come out as they went in, each in its place.
pub proof fn lemma_untouched_without_supporter_flag(
    preferences: PreferencesView,
    target_domain: Seq<char>,
    packets: Seq<PacketView>,
)
    requires
        !preferences.fake_supporter,
    ensures
        rewrite_stream(preferences, target_domain, packets).0.len() == packets.len(),
        forall|i: int|
            0 <= i < packets.len() && (#[trigger] packets[i] is ChangeAction
                || packets[i] is Privilege) ==> rewrite_stream(
                preferences,
                target_domain,
                packets,
            ).0[i] == packets[i],
    decreases packets.len(),
{
    if packets.len() > 0 {
        let rest = packets.skip(1);
        let then = preferences_after(preferences, packets[0]);
        lemma_untouched_without_supporter_flag(then, target_domain, rest);
        let out = rewrite_stream(preferences, target_domain, packets).0;
        let out_rest = rewrite_stream(then, target_domain, rest).0;
        assert forall|i: int|
            0 <= i < packets.len() && (#[trigger] packets[i] is ChangeAction
                || packets[i] is Privilege) implies out[i] == packets[i] by {
            if i > 0 {
                assert(rest[i - 1] == packets[i]);
                assert(out[i] == out_rest[i - 1]);
            }
        }
    }
}

/// Where a body tells no user id and none of its packets is dropped, each
/// packet is decided under the preferences as they stood before the body,
/// and comes out in its place. So with a country set, the presence of the
/// user who is logged in shows that country, and the presence of anyone
/// else stays as it was.
pub proof fn lemma_rewrite_pointwise(
    preferences: PreferencesView,
    target_domain: Seq<char>,
    packets: Seq<PacketView>,
)
    requires
        forall|i: int| 0 <= i < packets.len() ==> !(#[trigger] packets[i] is UserId),
        !preferences.fake_supporter || forall|i: int|
            0 <= i < packets.len() ==> !is_osu_direct_probe(#[trigger] packets[i]),
    ensures
        rewrite_stream(preferences, target_domain, packets).0.len() == packets.len(),
        forall|i: int|
            0 <= i < packets.len() ==> rewrite_packet(
                preferences,
                target_domain,
                #[trigger] packets[i],
            ) == Some(rewrite_stream(preferences, target_domain, packets).0[i]),
    decreases packets.len(),
{
    if packets.len() > 0 {
        let rest = packets.skip(1);
        assert(!(packets[0] is UserId));
        assert(!preferences.fake_supporter || !is_osu_direct_probe(packets[0]));
        assert forall|i: int| 0 <= i < rest.len() implies !(#[trigger] rest[i] is UserId) by {
            assert(rest[i] == packets[i + 1]);
        }
        if preferences.fake_supporter {
            assert forall|i: int| 0 <= i < rest.len() implies !is_osu_direct_probe(
                #[trigger] rest[i],
            ) by {
                assert(rest[i] == packets[i + 1]);
            }
        }
        lemma_rewrite_pointwise(preferences, target_domain, rest);
        let out = rewrite_stream(preferences, target_domain, packets).0;
        let out_rest = rewrite_stream(preferences, target_domain, rest).0;
        assert forall|i: int| 0 <= i < packets.len() implies rewrite_packet(
            preferences,
            target_domain,
            #[trigger] packets[i],
        ) == Some(out[i]) by {
            if i > 0 {
                assert(rest[i - 1] == packets[i]);
                assert(out[i] == out_rest[i - 1]);
            }
        }
    }
}

/// A presence packet shows the country that is set exactly where it is
/// about the user who is logged in; nothing else in it changes.
pub proof fn lemma_country_spoof_targets_self(
    preferences: PreferencesView,
    target_domain: Seq<char>,
    packet: PacketView,
)
    requires
        packet is UserPresence,
    ensures
        rewrite_packet(preferences, target_domain, packet) matches Some(shown)
            && shown is UserPresence && shown->user_id == packet->user_id && shown->name
            == packet->name && shown->utc_offset == packet->utc_offset
            && shown->bancho_privileges == packet->bancho_privileges && shown->longitude
            == packet->longitude && shown->latitude == packet->latitude && shown->global_rank
            == packet->global_rank && shown->country_code == (if preferences.fake_country is Some
            && preferences.user_id == Some(packet->user_id) {
            preferences.fake_country->0.code()
        } else {
            packet->country_code
        }),
{
}

} // verus!
