//! What the user has set: read by the rewriting rules for every body, and
//! written by them when the server tells the client its user id.

use crate::bancho::country::Country;
use crate::text::decimal_digits;
use crate::text::u32_to_decimal;
use vstd::prelude::*;
use vstd::string::StringExecFns;

verus! {

/// Where beatmap downloads are sent.
#[derive(Debug, Clone, Copy, PartialEq, Eq)]
pub enum BeatmapMirror {
    ServerDefault,
    Chimu,
    BeatConnect,
    Nerinyan,
}

impl Default for BeatmapMirror {
    fn default() -> (mirror: Self)
        ensures
            mirror == BeatmapMirror::Chimu,
    {
        BeatmapMirror::Chimu
    }
}

impl BeatmapMirror {
    /// What stands before the beatmap set's number in a mirror's download
    /// link.
    pub open spec fn link_prefix(self) -> Seq<char>
        recommends
            self != BeatmapMirror::ServerDefault,
    {
        match self {
            BeatmapMirror::ServerDefault => Seq::empty(),
            BeatmapMirror::Chimu => "https://api.chimu.moe/d/"@,
            BeatmapMirror::BeatConnect => "https://beatconnect.io/b/"@,
            BeatmapMirror::Nerinyan => "https://api.nerinyan.moe/d/"@,
        }
    }

    /// The mirror's name as the user reads it.
    pub open spec fn display_name(self) -> Seq<char> {
        match self {
            BeatmapMirror::ServerDefault => "Server Default"@,
            BeatmapMirror::Chimu => "chimu.moe"@,
            BeatmapMirror::BeatConnect => "BeatConnect"@,
            BeatmapMirror::Nerinyan => "nerinyan.moe"@,
        }
    }

    /// The link from which the mirror hands out a beatmap set. The server's
    /// own downloads have no such link, so `ServerDefault` is left out.
    pub fn direct_download_link(&self, set_id: u32, with_video: bool) -> (link: String)
        requires
            *self != BeatmapMirror::ServerDefault,
        ensures
            link@ == self.link_prefix() + decimal_digits(set_id as nat),
    {
        let mut link = match self {
            BeatmapMirror::ServerDefault => String::new(),
            BeatmapMirror::Chimu => String::from_str("https://api.chimu.moe/d/"),
            BeatmapMirror::BeatConnect => String::from_str("https://beatconnect.io/b/"),
            BeatmapMirror::Nerinyan => String::from_str("https://api.nerinyan.moe/d/"),
        };
        let digits = u32_to_decimal(set_id);
        link.append(digits.as_str());
        link
    }

    /// The mirror's name as the user reads it.
    pub fn to_string(&self) -> (name: String)
        ensures
            name@ == self.display_name(),
    {
        match self {
            BeatmapMirror::ServerDefault => String::from_str("Server Default"),
            BeatmapMirror::Chimu => String::from_str("chimu.moe"),
            BeatmapMirror::BeatConnect => String::from_str("BeatConnect"),
            BeatmapMirror::Nerinyan => String::from_str("nerinyan.moe"),
        }
    }
}

/// The settings one instance of the proxy runs under.
#[derive(Debug, Clone)]
pub struct Preferences {
    /// The domain of the server that the proxy talks to.
    pub server_address: String,
    /// Whether the client is told that the user is a supporter.
    pub fake_supporter: bool,
    pub beatmap_mirror: BeatmapMirror,
    /// The country that the client is shown for the user, if any.
    pub fake_country: Option<Country>,
    /// The id of the user who is logged in, once the server has said it.
    pub user_id: Option<i32>,
}

/// What the settings say.
pub struct PreferencesView {
    pub server_address: Seq<char>,
    pub fake_supporter: bool,
    pub beatmap_mirror: BeatmapMirror,
    pub fake_country: Option<Country>,
    pub user_id: Option<i32>,
}

impl View for Preferences {
    type V = PreferencesView;

    open spec fn view(&self) -> PreferencesView {
        PreferencesView {
            server_address: self.server_address@,
            fake_supporter: self.fake_supporter,
            beatmap_mirror: self.beatmap_mirror,
            fake_country: self.fake_country,
            user_id: self.user_id,
        }
    }
}

impl Default for Preferences {
    /// The settings of a fresh start: the official server, the supporter
    /// flag forced on, downloads from the first mirror, no country shown in
    /// place of the user's own, and no user logged in yet.
    fn default() -> (preferences: Self)
        ensures
            preferences@ == (PreferencesView {
                server_address: "ppy.sh"@,
                fake_supporter: true,
                beatmap_mirror: BeatmapMirror::Chimu,
                fake_country: None,
                user_id: None,
            }),
    {
        Self {
            server_address: String::from_str("ppy.sh"),
            fake_supporter: true,
            beatmap_mirror: BeatmapMirror::Chimu,
            fake_country: None,
            user_id: None,
        }
    }
}

} // verus!
