//! Activity and idle records for rich presence.
//!
//! The platform probes that discover running applications and measure input
//! idleness live in the host layer; this module holds the records they
//! produce and the idle-threshold rule applied to the measured seconds.

use vstd::prelude::*;
use crate::text::contains_str;
use crate::text::is_substring;

verus! {

/// Default idle threshold in seconds (five minutes).
pub const DEFAULT_IDLE_THRESHOLD: u64 = 300;

/// A running application recognized for rich presence.
#[derive(Debug, Clone, PartialEq)]
pub struct DetectedActivity {
    /// Display name of the application.
    pub name: String,
    /// Process name or executable as observed.
    pub process_name: String,
    /// Activity category: 0 playing, 1 streaming, 2 listening, 3 watching.
    pub activity_type: u8,
    /// Window title, when one was observed.
    pub window_title: Option<String>,
    /// When the activity started, as a Unix timestamp in milliseconds.
    pub started_at: u64,
}

/// System idle information.
#[derive(Debug, Clone, Copy, PartialEq, Eq, Structural)]
pub struct IdleStatus {
    /// Seconds since the last user input.
    pub idle_seconds: u64,
    /// Whether the system counts as idle: strictly past the threshold.
    pub is_idle: bool,
    /// Whether the screen is locked.
    pub screen_locked: bool,
}

impl IdleStatus {
    /// Judge a measured idle time against a threshold.
    pub fn from_measurement(idle_seconds: u64, threshold_seconds: u64, screen_locked: bool) -> (r:
        IdleStatus)
        ensures
            r.idle_seconds == idle_seconds,
            r.is_idle == (idle_seconds > threshold_seconds),
            r.screen_locked == screen_locked,
    {
        IdleStatus { idle_seconds, is_idle: idle_seconds > threshold_seconds, screen_locked }
    }

    /// Judge a measured idle time against the default threshold.
    pub fn from_measurement_default(idle_seconds: u64, screen_locked: bool) -> (r: IdleStatus)
        ensures
            r.idle_seconds == idle_seconds,
            r.is_idle == (idle_seconds > DEFAULT_IDLE_THRESHOLD),
            r.screen_locked == screen_locked,
    {
        IdleStatus::from_measurement(idle_seconds, DEFAULT_IDLE_THRESHOLD, screen_locked)
    }
}


/// How many known applications the recognition table lists.
pub open spec fn known_app_count() -> int {
    60
}

/// The lower-case pattern searched for in process names and window titles.
pub open spec fn known_app_pattern(i: int) -> Seq<char> {
    if i == 0 {
        "steam"@
    } else if i == 1 {
        "minecraft"@
    } else if i == 2 {
        "javaw"@
    } else if i == 3 {
        "league of legends"@
    } else if i == 4 {
        "leagueclient"@
    } else if i == 5 {
        "valorant"@
    } else if i == 6 {
        "csgo"@
    } else if i == 7 {
        "cs2"@
    } else if i == 8 {
        "dota2"@
    } else if i == 9 {
        "overwatch"@
    } else if i == 10 {
        "fortnite"@
    } else if i == 11 {
        "roblox"@
    } else if i == 12 {
        "gta5"@
    } else if i == 13 {
        "gtav"@
    } else if i == 14 {
        "cyberpunk2077"@
    } else if i == 15 {
        "eldenring"@
    } else if i == 16 {
        "baldur"@
    } else if i == 17 {
        "bg3"@
    } else if i == 18 {
        "wow"@
    } else if i == 19 {
        "ffxiv"@
    } else if i == 20 {
        "destiny2"@
    } else if i == 21 {
        "apex"@
    } else if i == 22 {
        "rust"@
    } else if i == 23 {
        "terraria"@
    } else if i == 24 {
        "starcraft"@
    } else if i == 25 {
        "diablo"@
    } else if i == 26 {
        "hearthstone"@
    } else if i == 27 {
        "fallout"@
    } else if i == 28 {
        "skyrim"@
    } else if i == 29 {
        "witcher"@
    } else if i == 30 {
        "spotify"@
    } else if i == 31 {
        "music"@
    } else if i == 32 {
        "itunes"@
    } else if i == 33 {
        "tidal"@
    } else if i == 34 {
        "deezer"@
    } else if i == 35 {
        "soundcloud"@
    } else if i == 36 {
        "amazon music"@
    } else if i == 37 {
        "vlc"@
    } else if i == 38 {
        "foobar"@
    } else if i == 39 {
        "musicbee"@
    } else if i == 40 {
        "netflix"@
    } else if i == 41 {
        "plex"@
    } else if i == 42 {
        "mpv"@
    } else if i == 43 {
        "kodi"@
    } else if i == 44 {
        "obs"@
    } else if i == 45 {
        "streamlabs"@
    } else if i == 46 {
        "code"@
    } else if i == 47 {
        "code - insiders"@
    } else if i == 48 {
        "cursor"@
    } else if i == 49 {
        "webstorm"@
    } else if i == 50 {
        "intellij"@
    } else if i == 51 {
        "pycharm"@
    } else if i == 52 {
        "rider"@
    } else if i == 53 {
        "android studio"@
    } else if i == 54 {
        "xcode"@
    } else if i == 55 {
        "sublime"@
    } else if i == 56 {
        "atom"@
    } else if i == 57 {
        "vim"@
    } else if i == 58 {
        "nvim"@
    } else {
        "emacs"@
    }
}

/// The display name reported when the pattern at `i` matches.
pub open spec fn known_app_name(i: int) -> Seq<char> {
    if i == 0 {
        "Steam"@
    } else if i == 1 {
        "Minecraft"@
    } else if i == 2 {
        "Minecraft"@
    } else if i == 3 {
        "League of Legends"@
    } else if i == 4 {
        "League of Legends"@
    } else if i == 5 {
        "VALORANT"@
    } else if i == 6 {
        "Counter-Strike"@
    } else if i == 7 {
        "Counter-Strike 2"@
    } else if i == 8 {
        "Dota 2"@
    } else if i == 9 {
        "Overwatch"@
    } else if i == 10 {
        "Fortnite"@
    } else if i == 11 {
        "Roblox"@
    } else if i == 12 {
        "GTA V"@
    } else if i == 13 {
        "GTA V"@
    } else if i == 14 {
        "Cyberpunk 2077"@
    } else if i == 15 {
        "Elden Ring"@
    } else if i == 16 {
        "Baldur's Gate 3"@
    } else if i == 17 {
        "Baldur's Gate 3"@
    } else if i == 18 {
        "World of Warcraft"@
    } else if i == 19 {
        "Final Fantasy XIV"@
    } else if i == 20 {
        "Destiny 2"@
    } else if i == 21 {
        "Apex Legends"@
    } else if i == 22 {
        "Rust"@
    } else if i == 23 {
        "Terraria"@
    } else if i == 24 {
        "StarCraft"@
    } else if i == 25 {
        "Diablo"@
    } else if i == 26 {
        "Hearthstone"@
    } else if i == 27 {
        "Fallout"@
    } else if i == 28 {
        "Skyrim"@
    } else if i == 29 {
        "The Witcher"@
    } else if i == 30 {
        "Spotify"@
    } else if i == 31 {
        "Apple Music"@
    } else if i == 32 {
        "iTunes"@
    } else if i == 33 {
        "Tidal"@
    } else if i == 34 {
        "Deezer"@
    } else if i == 35 {
        "SoundCloud"@
    } else if i == 36 {
        "Amazon Music"@
    } else if i == 37 {
        "VLC"@
    } else if i == 38 {
        "foobar2000"@
    } else if i == 39 {
        "MusicBee"@
    } else if i == 40 {
        "Netflix"@
    } else if i == 41 {
        "Plex"@
    } else if i == 42 {
        "Video"@
    } else if i == 43 {
        "Kodi"@
    } else if i == 44 {
        "OBS Studio"@
    } else if i == 45 {
        "Streamlabs"@
    } else if i == 46 {
        "Visual Studio Code"@
    } else if i == 47 {
        "VS Code Insiders"@
    } else if i == 48 {
        "Cursor"@
    } else if i == 49 {
        "WebStorm"@
    } else if i == 50 {
        "IntelliJ IDEA"@
    } else if i == 51 {
        "PyCharm"@
    } else if i == 52 {
        "Rider"@
    } else if i == 53 {
        "Android Studio"@
    } else if i == 54 {
        "Xcode"@
    } else if i == 55 {
        "Sublime Text"@
    } else if i == 56 {
        "Atom"@
    } else if i == 57 {
        "Vim"@
    } else if i == 58 {
        "Neovim"@
    } else {
        "Emacs"@
    }
}

/// The activity category reported when the pattern at `i` matches.
pub open spec fn known_app_type(i: int) -> u8 {
    if i == 0 {
        0
    } else if i == 1 {
        0
    } else if i == 2 {
        0
    } else if i == 3 {
        0
    } else if i == 4 {
        0
    } else if i == 5 {
        0
    } else if i == 6 {
        0
    } else if i == 7 {
        0
    } else if i == 8 {
        0
    } else if i == 9 {
        0
    } else if i == 10 {
        0
    } else if i == 11 {
        0
    } else if i == 12 {
        0
    } else if i == 13 {
        0
    } else if i == 14 {
        0
    } else if i == 15 {
        0
    } else if i == 16 {
        0
    } else if i == 17 {
        0
    } else if i == 18 {
        0
    } else if i == 19 {
        0
    } else if i == 20 {
        0
    } else if i == 21 {
        0
    } else if i == 22 {
        0
    } else if i == 23 {
        0
    } else if i == 24 {
        0
    } else if i == 25 {
        0
    } else if i == 26 {
        0
    } else if i == 27 {
        0
    } else if i == 28 {
        0
    } else if i == 29 {
        0
    } else if i == 30 {
        2
    } else if i == 31 {
        2
    } else if i == 32 {
        2
    } else if i == 33 {
        2
    } else if i == 34 {
        2
    } else if i == 35 {
        2
    } else if i == 36 {
        2
    } else if i == 37 {
        2
    } else if i == 38 {
        2
    } else if i == 39 {
        2
    } else if i == 40 {
        3
    } else if i == 41 {
        3
    } else if i == 42 {
        3
    } else if i == 43 {
        3
    } else if i == 44 {
        1
    } else if i == 45 {
        1
    } else if i == 46 {
        0
    } else if i == 47 {
        0
    } else if i == 48 {
        0
    } else if i == 49 {
        0
    } else if i == 50 {
        0
    } else if i == 51 {
        0
    } else if i == 52 {
        0
    } else if i == 53 {
        0
    } else if i == 54 {
        0
    } else if i == 55 {
        0
    } else if i == 56 {
        0
    } else if i == 57 {
        0
    } else if i == 58 {
        0
    } else {
        0
    }
}

fn known_app(i: usize) -> (r: (&'static str, &'static str, u8))
    requires
        i < known_app_count(),
    ensures
        r.0@ == known_app_pattern(i as int),
        r.1@ == known_app_name(i as int),
        r.2 == known_app_type(i as int),
{
    if i == 0 {
        ("steam", "Steam", 0)
    } else if i == 1 {
        ("minecraft", "Minecraft", 0)
    } else if i == 2 {
        ("javaw", "Minecraft", 0)
    } else if i == 3 {
        ("league of legends", "League of Legends", 0)
    } else if i == 4 {
        ("leagueclient", "League of Legends", 0)
    } else if i == 5 {
        ("valorant", "VALORANT", 0)
    } else if i == 6 {
        ("csgo", "Counter-Strike", 0)
    } else if i == 7 {
        ("cs2", "Counter-Strike 2", 0)
    } else if i == 8 {
        ("dota2", "Dota 2", 0)
    } else if i == 9 {
        ("overwatch", "Overwatch", 0)
    } else if i == 10 {
        ("fortnite", "Fortnite", 0)
    } else if i == 11 {
        ("roblox", "Roblox", 0)
    } else if i == 12 {
        ("gta5", "GTA V", 0)
    } else if i == 13 {
        ("gtav", "GTA V", 0)
    } else if i == 14 {
        ("cyberpunk2077", "Cyberpunk 2077", 0)
    } else if i == 15 {
        ("eldenring", "Elden Ring", 0)
    } else if i == 16 {
        ("baldur", "Baldur's Gate 3", 0)
    } else if i == 17 {
        ("bg3", "Baldur's Gate 3", 0)
    } else if i == 18 {
        ("wow", "World of Warcraft", 0)
    } else if i == 19 {
        ("ffxiv", "Final Fantasy XIV", 0)
    } else if i == 20 {
        ("destiny2", "Destiny 2", 0)
    } else if i == 21 {
        ("apex", "Apex Legends", 0)
    } else if i == 22 {
        ("rust", "Rust", 0)
    } else if i == 23 {
        ("terraria", "Terraria", 0)
    } else if i == 24 {
        ("starcraft", "StarCraft", 0)
    } else if i == 25 {
        ("diablo", "Diablo", 0)
    } else if i == 26 {
        ("hearthstone", "Hearthstone", 0)
    } else if i == 27 {
        ("fallout", "Fallout", 0)
    } else if i == 28 {
        ("skyrim", "Skyrim", 0)
    } else if i == 29 {
        ("witcher", "The Witcher", 0)
    } else if i == 30 {
        ("spotify", "Spotify", 2)
    } else if i == 31 {
        ("music", "Apple Music", 2)
    } else if i == 32 {
        ("itunes", "iTunes", 2)
    } else if i == 33 {
        ("tidal", "Tidal", 2)
    } else if i == 34 {
        ("deezer", "Deezer", 2)
    } else if i == 35 {
        ("soundcloud", "SoundCloud", 2)
    } else if i == 36 {
        ("amazon music", "Amazon Music", 2)
    } else if i == 37 {
        ("vlc", "VLC", 2)
    } else if i == 38 {
        ("foobar", "foobar2000", 2)
    } else if i == 39 {
        ("musicbee", "MusicBee", 2)
    } else if i == 40 {
        ("netflix", "Netflix", 3)
    } else if i == 41 {
        ("plex", "Plex", 3)
    } else if i == 42 {
        ("mpv", "Video", 3)
    } else if i == 43 {
        ("kodi", "Kodi", 3)
    } else if i == 44 {
        ("obs", "OBS Studio", 1)
    } else if i == 45 {
        ("streamlabs", "Streamlabs", 1)
    } else if i == 46 {
        ("code", "Visual Studio Code", 0)
    } else if i == 47 {
        ("code - insiders", "VS Code Insiders", 0)
    } else if i == 48 {
        ("cursor", "Cursor", 0)
    } else if i == 49 {
        ("webstorm", "WebStorm", 0)
    } else if i == 50 {
        ("intellij", "IntelliJ IDEA", 0)
    } else if i == 51 {
        ("pycharm", "PyCharm", 0)
    } else if i == 52 {
        ("rider", "Rider", 0)
    } else if i == 53 {
        ("android studio", "Android Studio", 0)
    } else if i == 54 {
        ("xcode", "Xcode", 0)
    } else if i == 55 {
        ("sublime", "Sublime Text", 0)
    } else if i == 56 {
        ("atom", "Atom", 0)
    } else if i == 57 {
        ("vim", "Vim", 0)
    } else if i == 58 {
        ("nvim", "Neovim", 0)
    } else {
        ("emacs", "Emacs", 0)
    }
}

/// The first table entry whose pattern occurs in `s`, scanning from `i`.
pub open spec fn match_from(s: Seq<char>, i: int) -> Option<int>
    decreases known_app_count() - i,
{
    if i < 0 || i >= known_app_count() {
        None
    } else if is_substring(s, known_app_pattern(i)) {
        Some(i)
    } else {
        match_from(s, i + 1)
    }
}

proof fn lemma_match_from_extend(s: Seq<char>, j: int, i: int)
    requires
        0 <= j <= i <= known_app_count(),
        forall|k: int| j <= k < i ==> !is_substring(s, #[trigger] known_app_pattern(k)),
    ensures
        match_from(s, j) == match_from(s, i),
    decreases i - j,
{
    if j < i {
        lemma_match_from_extend(s, j + 1, i);
    }
}

/// What `str::to_lowercase` yields on this text.
pub uninterp spec fn lower_of(s: Seq<char>) -> Seq<char>;

/// Relies on `str::to_lowercase`: the result depends on the characters alone.
#[verifier::external_body]
fn lowercase(s: &str) -> (r: String)
    ensures
        r@ == lower_of(s@),
{
    s.to_lowercase()
}

/// The mathematical shape of a detected activity.
pub ghost struct ActivityModel {
    /// Display name from the table.
    pub name: Seq<char>,
    /// Process name as observed.
    pub process_name: Seq<char>,
    /// Activity category from the table.
    pub activity_type: u8,
    /// Window title, when one was observed.
    pub window_title: Option<Seq<char>>,
    /// Start timestamp in milliseconds.
    pub started_at: u64,
}

impl View for DetectedActivity {
    type V = ActivityModel;

    open spec fn view(&self) -> ActivityModel {
        ActivityModel {
            name: self.name@,
            process_name: self.process_name@,
            activity_type: self.activity_type,
            window_title: self.window_title.deep_view(),
            started_at: self.started_at,
        }
    }
}

/// What matching yields: the first table entry whose pattern occurs in the
/// lower-cased process name, else the first whose pattern occurs in the
/// lower-cased window title, else nothing.
pub open spec fn spec_match_app(
    process_name: Seq<char>,
    window_title: Option<Seq<char>>,
    started_at: u64,
) -> Option<ActivityModel> {
    match match_from(lower_of(process_name), 0) {
        Some(i) => Some(
            ActivityModel {
                name: known_app_name(i),
                process_name,
                activity_type: known_app_type(i),
                window_title,
                started_at,
            },
        ),
        None => match window_title {
            Some(t) => match match_from(lower_of(t), 0) {
                Some(i) => Some(
                    ActivityModel {
                        name: known_app_name(i),
                        process_name,
                        activity_type: known_app_type(i),
                        window_title,
                        started_at,
                    },
                ),
                None => None,
            },
            None => None,
        },
    }
}

/// Match an observed process against the known-application table.
#[verifier::loop_isolation(false)]
pub fn match_known_app(process_name: &str, window_title: Option<String>, started_at: u64) -> (r:
    Option<DetectedActivity>)
    ensures
        match r {
            Some(a) => spec_match_app(process_name@, window_title.deep_view(), started_at)
                == Some(a@),
            None => spec_match_app(process_name@, window_title.deep_view(), started_at) is None,
        },
{
    let ghost wt = window_title.deep_view();
    let pl = lowercase(process_name);
    let count: usize = 60;
    let mut i: usize = 0;
    while i < count
        invariant
            i <= count,
            count == known_app_count(),
            pl@ == lower_of(process_name@),
            forall|k: int| 0 <= k < i ==> !is_substring(pl@, #[trigger] known_app_pattern(k)),
        decreases count - i,
    {
        let (pat, name, ty) = known_app(i);
        if contains_str(pl.as_str(), pat) {
            proof {
                lemma_match_from_extend(pl@, 0, i as int);
            }
            return Some(
                DetectedActivity {
                    name: name.to_owned(),
                    process_name: process_name.to_owned(),
                    activity_type: ty,
                    window_title,
                    started_at,
                },
            );
        }
        i = i + 1;
    }
    proof {
        lemma_match_from_extend(pl@, 0, known_app_count());
    }
    match window_title {
        Some(title) => {
            let tl = lowercase(title.as_str());
            let mut j: usize = 0;
            while j < count
                invariant
                    j <= count,
                    count == known_app_count(),
                    tl@ == lower_of(title@),
                    wt == Some(title@),
                    match_from(lower_of(process_name@), 0) is None,
                    forall|k: int|
                        0 <= k < j ==> !is_substring(tl@, #[trigger] known_app_pattern(k)),
                decreases count - j,
            {
                let (pat, name, ty) = known_app(j);
                if contains_str(tl.as_str(), pat) {
                    proof {
                        lemma_match_from_extend(tl@, 0, j as int);
                        assert(wt == Some(title@));
                    }
                    return Some(
                        DetectedActivity {
                            name: name.to_owned(),
                            process_name: process_name.to_owned(),
                            activity_type: ty,
                            window_title: Some(title),
                            started_at,
                        },
                    );
                }
                j = j + 1;
            }
            proof {
                lemma_match_from_extend(tl@, 0, known_app_count());
                assert(wt == Some(title@));
            }
            None
        },
        None => None,
    }
}

} // verus!
