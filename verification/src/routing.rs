//! What the proxy decides about a request and its response, apart from
//! carrying them: which server a host stands for, whether a body holds
//! packets, and where a beatmap download is sent.

use crate::bancho::packet::PacketView;
use crate::bancho::stream::decode_bancho_packets;
use crate::bancho::stream::encode_bancho_packets;
use crate::bancho::stream::packet_views;
use crate::bancho::stream::parse_stream;
use crate::bancho::stream::stream_bytes;
use crate::error::DecodeError;
use crate::error::EncodeError;
use crate::preferences::BeatmapMirror;
use crate::preferences::Preferences;
use crate::preferences::PreferencesView;
use crate::rewrite::process_bancho_packets;
use crate::rewrite::rewrite_stream;
use crate::text::decimal_digits;
use crate::text::parse_decimal_u32;
use crate::text::replace_all;
use crate::text::str_parse_u32;
use crate::text::str_replace;
use crate::text::str_starts_with;
use vstd::prelude::*;
use vstd::string::StringExecFns;

verus! {

/// The domain under which the client reaches the proxy.
pub open spec fn source_domain() -> Seq<char> {
    "osus.zihad.dev"@
}

/// The domain of the server to which the proxy goes where no preferences
/// say another.
pub open spec fn default_target_domain() -> Seq<char> {
    "osu.ppy.sh"@
}

/// The host that a subdomain makes under a domain.
pub open spec fn host_under(subdomain: Seq<char>, domain: Seq<char>) -> Seq<char> {
    subdomain + "."@ + domain
}

/// The subdomain for which the proxy answers under `host`, if it is one of
/// those that the game's client uses.
pub open spec fn subdomain_of(host: Seq<char>) -> Option<Seq<char>> {
    if host == host_under("c"@, source_domain()) {
        Some("c"@)
    } else if host == host_under("ce"@, source_domain()) {
        Some("ce"@)
    } else if host == host_under("c4"@, source_domain()) {
        Some("c4"@)
    } else if host == host_under("osu"@, source_domain()) {
        Some("osu"@)
    } else if host == host_under("b"@, source_domain()) {
        Some("b"@)
    } else if host == host_under("api"@, source_domain()) {
        Some("api"@)
    } else if host == host_under("a"@, source_domain()) {
        Some("a"@)
    } else {
        None
    }
}

/// The domain under which the client reaches the proxy.
pub fn source_domain_name() -> (domain: &'static str)
    ensures
        domain@ == source_domain(),
{
    "osus.zihad.dev"
}

/// The domain of the server to which the proxy goes where no preferences
/// say another.
pub fn default_target_domain_name() -> (domain: &'static str)
    ensures
        domain@ == default_target_domain(),
{
    "osu.ppy.sh"
}

/// The host that a subdomain makes under a domain.
pub fn host_name(subdomain: &str, domain: &str) -> (host: String)
    ensures
        host@ == host_under(subdomain@, domain@),
{
    let mut host = String::from_str(subdomain);
    host.append(".");
    host.append(domain);
    host
}

/// Whether `host` is the given subdomain of the proxy's own domain.
fn is_source_host(host: &String, subdomain: &str) -> (is: bool)
    ensures
        is == (host@ == host_under(subdomain@, source_domain())),
{
    let candidate = host_name(subdomain, "osus.zihad.dev");
    candidate == *host
}

/// The subdomain for which the proxy answers under `host`, or `None` where
/// the host is none of the proxy's.
pub fn find_subdomain(host: &str) -> (subdomain: Option<&'static str>)
    ensures
        match subdomain {
            Some(name) => subdomain_of(host@) == Some(name@),
            None => subdomain_of(host@) is None,
        },
{
    let host = String::from_str(host);
    if is_source_host(&host, "c") {
        Some("c")
    } else if is_source_host(&host, "ce") {
        Some("ce")
    } else if is_source_host(&host, "c4") {
        Some("c4")
    } else if is_source_host(&host, "osu") {
        Some("osu")
    } else if is_source_host(&host, "b") {
        Some("b")
    } else if is_source_host(&host, "api") {
        Some("api")
    } else if is_source_host(&host, "a") {
        Some("a")
    } else {
        None
    }
}

/// Whether an exchange carries packets: the game posts them to the root
/// path.
pub open spec fn carries_packets(path: Seq<char>, is_post: bool) -> bool {
    is_post && path == "/"@
}

/// Whether the body of a request is rewritten: it carries packets and
/// comes from a client that is logged in.
pub fn rewrites_request(has_osu_token: bool, path: &str, is_post: bool) -> (rewrites: bool)
    ensures
        rewrites == (has_osu_token && carries_packets(path@, is_post)),
{
    has_osu_token && is_post && String::from_str(path) == String::from_str("/")
}

/// Whether the body of a response is rewritten: its request carried
/// packets.
pub fn rewrites_response(path: &str, is_post: bool) -> (rewrites: bool)
    ensures
        rewrites == carries_packets(path@, is_post),
{
    is_post && String::from_str(path) == String::from_str("/")
}

/// Why a body could not be rewritten.
#[derive(Debug, Clone, Copy, PartialEq, Eq)]
pub enum BodyError {
    Decode(DecodeError),
    Encode(EncodeError),
}

/// Whether each payload is short enough for its header to say its length.
pub open spec fn payloads_fit(packets: Seq<PacketView>) -> bool {
    forall|i: int| 0 <= i < packets.len() ==> (#[trigger] packets[i]).payload().len() <= u32::MAX
}

/// What becomes of a body, over the preferences as they stand before it:
/// the body that goes on in its place and the bytes left over behind its
/// last packet, or why there is none; and the preferences after it.
///
/// A body that does not decode changes nothing. A body whose packets do
/// not all fit on the wire after the rewriting fails, but the preferences
/// have seen its packets.
pub open spec fn rewritten_body(
    preferences: PreferencesView,
    target_domain: Seq<char>,
    body: Seq<u8>,
) -> (Result<(Seq<u8>, Seq<u8>), BodyError>, PreferencesView) {
    match parse_stream(body) {
        Err(e) => (Err(BodyError::Decode(e)), preferences),
        Ok((packets, leftover)) => {
            let (kept, after) = rewrite_stream(preferences, target_domain, packets);
            if payloads_fit(kept) {
                (Ok((stream_bytes(kept), leftover)), after)
            } else {
                (Err(BodyError::Encode(EncodeError::PayloadTooLarge)), after)
            }
        },
    }
}

/// Rewrites one body: decodes it, decides each packet, and encodes what is
/// kept. It hands back the new body and the bytes that were left over
/// behind the last packet of the old one, which are not part of the new.
pub fn rewrite_body(preferences: &mut Preferences, body: &[u8], target_domain: &str) -> (r: Result<
    (Vec<u8>, Vec<u8>),
    BodyError,
>)
    ensures
        final(preferences)@ == rewritten_body(old(preferences)@, target_domain@, body@).1,
        match r {
            Ok((bytes, leftover)) => rewritten_body(old(preferences)@, target_domain@, body@).0
                == Ok::<(Seq<u8>, Seq<u8>), BodyError>((bytes@, leftover@)),
            Err(e) => rewritten_body(old(preferences)@, target_domain@, body@).0 == Err::<
                (Seq<u8>, Seq<u8>),
                BodyError,
            >(e),
        },
{
    let (mut packets, leftover) = match decode_bancho_packets(body) {
        Ok(decoded) => decoded,
        Err(e) => {
            return Err(BodyError::Decode(e));
        },
    };
    process_bancho_packets(preferences, &mut packets, target_domain);
    let ghost kept = packet_views(packets@);
    match encode_bancho_packets(packets) {
        Ok(bytes) => {
            assert(payloads_fit(kept)) by {
                assert forall|i: int| 0 <= i < kept.len() implies (#[trigger] kept[i]).payload()
                    .len() <= u32::MAX by {
                    assert(kept[i] == packets[i]@);
                }
            }
            Ok((bytes, leftover))
        },
        Err(e) => {
            assert(!payloads_fit(kept)) by {
                let i = choose|i: int|
                    0 <= i < packets.len() && (#[trigger] packets[i])@.payload().len() > u32::MAX;
                assert(kept[i] == packets[i]@);
            }
            Err(BodyError::Encode(e))
        },
    }
}

/// The host under which the game asks for beatmap downloads.
pub open spec fn download_host() -> Seq<char> {
    host_under("osu"@, source_domain())
}

/// The number of the beatmap set that a download path asks for: what is
/// left of the path without `/d/` and without the `n` that asks for a
/// download without video, read as a number.
pub open spec fn download_set_id(path: Seq<char>) -> Option<u32> {
    if "/d/"@.len() <= path.len() && path.take("/d/"@.len() as int) == "/d/"@ {
        parse_decimal_u32(replace_all(replace_all(path, "/d/"@, ""@), "n"@, ""@))
    } else {
        None
    }
}

/// Where a beatmap download is sent in place of the server's answer: to
/// the mirror that the preferences name, for a `GET` of a download path
/// under the download host. `None` where the server's answer stands.
pub open spec fn download_redirect(
    mirror: BeatmapMirror,
    host: Seq<char>,
    is_get: bool,
    path: Seq<char>,
) -> Option<Seq<char>> {
    if host == download_host() && is_get && download_set_id(path) is Some && mirror
        != BeatmapMirror::ServerDefault {
        Some(mirror.link_prefix() + decimal_digits(download_set_id(path)->0 as nat))
    } else {
        None
    }
}

/// The link to which a beatmap download is redirected, or `None` where the
/// server's answer stands.
pub fn redirect_download(preferences: &Preferences, host: &str, is_get: bool, path: &str) -> (link:
    Option<String>)
    ensures
        match link {
            Some(link) => download_redirect(preferences.beatmap_mirror, host@, is_get, path@)
                == Some(link@),
            None => download_redirect(preferences.beatmap_mirror, host@, is_get, path@) is None,
        },
{
    let host = String::from_str(host);
    if !(is_source_host(&host, "osu") && is_get) {
        return None;
    }
    if !str_starts_with(path, "/d/") {
        return None;
    }
    proof {
        reveal_strlit("/d/");
        reveal_strlit("n");
    }
    let without_prefix = str_replace(path, "/d/", "");
    let digits = str_replace(without_prefix.as_str(), "n", "");
    let id = match str_parse_u32(digits.as_str()) {
        Ok(id) => id,
        Err(_) => {
            return None;
        },
    };
    match preferences.beatmap_mirror {
        BeatmapMirror::ServerDefault => None,
        mirror => Some(mirror.direct_download_link(id, false)),
    }
}

} // verus!
