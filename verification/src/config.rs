//! Configuration, and the YouTube Music web session.

use vstd::prelude::*;

use crate::text;

verus! {

broadcast use vstd::string::group_string_axioms;

/// Written by hand: one cookie header copied out of a browser.
pub const COOKIE_FILE: &'static str = "cookies.txt";

/// Written by the program: the session that the sign-in window made.
pub const IMPORT_FILE: &'static str = "browser-cookies.json";

/// Written by hand: the Discord application to use.
pub const DISCORD_FILE: &'static str = "discord.json";

/// Written by the program: where the presence switch was left.
pub const PRESENCE_FILE: &'static str = "presence.json";

/// Written by the program: the preferences of the settings panel.
pub const SETTINGS_FILE: &'static str = "settings.json";

/// Where the files of the program live.
#[derive(Debug, Clone, Copy, PartialEq, Eq, Structural)]
pub enum Base {
    /// In the directory that `APPDATA` names.
    AppData,
    /// In the directory that `XDG_CONFIG_HOME` names.
    Xdg,
    /// In `.config` under the directory that `HOME` names.
    HomeConfig,
}

/// Where the files of the program live, from which of the variables are set. A
/// relative XDG path is ignored.
pub fn base(windows: bool, appdata: bool, xdg_absolute: Option<bool>, home: bool) -> (r: Option<
    Base,
>)
    ensures
        r == if windows {
            if appdata {
                Some(Base::AppData)
            } else {
                None
            }
        } else if xdg_absolute == Some(true) {
            Some(Base::Xdg)
        } else if home {
            Some(Base::HomeConfig)
        } else {
            None
        },
{
    if windows {
        if appdata {
            Some(Base::AppData)
        } else {
            None
        }
    } else if matches!(xdg_absolute, Some(true)) {
        Some(Base::Xdg)
    } else if home {
        Some(Base::HomeConfig)
    } else {
        None
    }
}

/// The name and the value of one pair of a cookie header, without the white
/// space around them. What has no `=` is no pair.
pub open spec fn pair_of(piece: Seq<char>) -> Option<(Seq<char>, Seq<char>)> {
    match text::place_in(piece, "="@, 0) {
        Some(i) => Some((text::trim_of(piece.take(i)), text::trim_of(piece.skip(i + 1)))),
        None => None,
    }
}

/// The value of the first pair that has this name.
pub open spec fn value_in(pieces: Seq<Seq<char>>, name: Seq<char>) -> Option<Seq<char>>
    decreases pieces.len(),
{
    if pieces.len() == 0 {
        None
    } else {
        match value_in(pieces.drop_last(), name) {
            Some(value) => Some(value),
            None => match pair_of(pieces.last()) {
                Some((key, value)) => if key == name {
                    Some(value)
                } else {
                    None
                },
                None => None,
            },
        }
    }
}

/// The value of a cookie in a header.
pub open spec fn cookie_in(header: Seq<char>, name: Seq<char>) -> Option<Seq<char>> {
    value_in(text::split_of(header, ';'), name)
}

/// The value that requests are signed with: a cookie of one name, or else of
/// the other, which a browser that restricts third-party cookies has in its
/// place.
pub open spec fn sapisid_in(header: Seq<char>) -> Option<Seq<char>> {
    match cookie_in(header, "SAPISID"@) {
        Some(value) => Some(value),
        None => cookie_in(header, "__Secure-3PAPISID"@),
    }
}

/// The name and the value of one pair of a cookie header.
pub fn pair(piece: &[char]) -> (r: Option<(Vec<char>, Vec<char>)>)
    ensures
        match r {
            Some((key, value)) => pair_of(piece@) == Some((key@, value@)),
            None => pair_of(piece@) is None,
        },
{
    proof {
        reveal_strlit("=");
    }
    match text::split_once(piece, &text::to_chars("=")) {
        Some((key, value)) => Some((text::trim(&key), text::trim(&value))),
        None => None,
    }
}

proof fn lemma_value_stays(pieces: Seq<Seq<char>>, name: Seq<char>, n: int)
    requires
        0 <= n <= pieces.len(),
        value_in(pieces.take(n), name) is Some,
    ensures
        value_in(pieces, name) == value_in(pieces.take(n), name),
    decreases pieces.len() - n,
{
    if n < pieces.len() {
        assert(pieces.take(n + 1).drop_last() =~= pieces.take(n));
        lemma_value_stays(pieces, name, n + 1);
    } else {
        assert(pieces.take(n) =~= pieces);
    }
}

/// The value of a cookie in a header.
pub fn cookie(header: &str, name: &str) -> (r: Option<String>)
    ensures
        text::opt_view(r) == cookie_in(header@, name@),
{
    let chars = text::to_chars(header);
    let pieces = text::split(&chars, ';');
    let wanted = text::to_chars(name);
    let ghost all = text::split_of(header@, ';');
    let mut i: usize = 0;
    while i < pieces.len()
        invariant
            i <= pieces@.len() == all.len(),
            all == text::split_of(header@, ';'),
            wanted@ == name@,
            forall|k: int| 0 <= k < all.len() ==> (#[trigger] pieces@[k])@ == all[k],
            value_in(all.take(i as int), name@) is None,
        decreases pieces.len() - i,
    {
        proof {
            assert(all.take(i + 1).drop_last() =~= all.take(i as int));
            assert(pieces@[i as int]@ == all[i as int]);
        }
        if let Some((key, value)) = pair(&pieces[i]) {
            if text::same_chars(&key, &wanted) {
                proof {
                    lemma_value_stays(all, name@, i + 1);
                }
                return Some(text::from_chars(&value));
            }
        }
        i += 1;
    }
    proof {
        assert(all.take(all.len() as int) =~= all);
    }
    None
}

/// The value that requests are signed with.
pub fn sapisid(header: &str) -> (r: Option<String>)
    ensures
        text::opt_view(r) == sapisid_in(header@),
{
    match cookie(header, "SAPISID") {
        Some(value) => Some(value),
        None => cookie(header, "__Secure-3PAPISID"),
    }
}

/// A YouTube Music web session.
#[derive(Debug)]
pub struct Cookies {
    /// The whole header, to be sent back as it is.
    header: String,
    /// The value that is also signed with.
    sapisid: String,
}

/// What [`Cookies`] hold.
pub struct CookiesView {
    pub header: Seq<char>,
    pub sapisid: Seq<char>,
}

impl View for Cookies {
    type V = CookiesView;

    closed spec fn view(&self) -> CookiesView {
        CookiesView { header: self.header@, sapisid: self.sapisid@ }
    }
}

/// What optional cookies hold.
pub open spec fn cookies_view(cookies: Option<Cookies>) -> Option<CookiesView> {
    match cookies {
        Some(c) => Some(c@),
        None => None,
    }
}

/// The session of a raw header, where it has anything to sign with.
pub open spec fn session_of(raw: Seq<char>) -> Option<CookiesView> {
    let header = text::trim_of(raw);
    match sapisid_in(header) {
        Some(sapisid) => Some(CookiesView { header, sapisid }),
        None => None,
    }
}

/// What a cookie file comes to.
pub enum CookieFile {
    /// Nothing has been saved.
    Empty,
    Session(Cookies),
    /// There is nothing in it to sign with.
    Unusable,
}

impl Cookies {
    /// The session of a raw `Cookie:` header, or `None` where it has nothing to
    /// sign with.
    pub fn from_header(raw: &str) -> (r: Option<Self>)
        ensures
            cookies_view(r) == session_of(raw@),
    {
        let chars = text::to_chars(raw);
        let trimmed = text::trim(&chars);
        let header = text::from_chars(&trimmed);
        match sapisid(header.as_str()) {
            Some(sapisid) => Some(Cookies { header, sapisid }),
            None => None,
        }
    }

    /// The session that a cookie file holds, from what was read of it, and
    /// nothing where there is no such file. One that is there and cannot work is
    /// told apart from one that is empty.
    pub fn load(raw: Option<&str>) -> (r: CookieFile)
        ensures
            match raw {
                None => r is Empty,
                Some(raw) => match r {
                    CookieFile::Empty => text::trim_of(raw@).len() == 0,
                    CookieFile::Session(c) => text::trim_of(raw@).len() > 0 && session_of(raw@)
                        == Some(c@),
                    CookieFile::Unusable => text::trim_of(raw@).len() > 0 && session_of(raw@) is None,
                },
            },
    {
        match raw {
            None => CookieFile::Empty,
            Some(raw) => {
                let chars = text::to_chars(raw);
                let trimmed = text::trim(&chars);
                if trimmed.len() == 0 {
                    return CookieFile::Empty;
                }
                match Self::from_header(raw) {
                    Some(c) => CookieFile::Session(c),
                    None => CookieFile::Unusable,
                }
            },
        }
    }

    /// The session to use: the one of the sign-in window, so that signing in
    /// again replaces a stale one, and otherwise that of the cookie file.
    pub fn available(imported: &Option<Import>, file: CookieFile) -> (r: CookieFile)
        ensures
            match *imported {
                Some(import) if session_of(import.header@) is Some => r matches CookieFile::Session(
                    c,
                ) && session_of(import.header@) == Some(c@),
                _ => r == file,
            },
    {
        if let Some(import) = imported {
            if let Some(c) = Self::from_header(import.header.as_str()) {
                return CookieFile::Session(c);
            }
        }
        file
    }

    /// What signing out comes to, from the removal of both sessions that are
    /// kept. Both have to be gone, or the next request would sign straight back
    /// in; the first that could not be removed is reported.
    pub fn forget(manual: Removal, imported: Removal) -> (r: Result<(), String>)
        ensures
            r is Ok == (!(manual is Failed) && !(imported is Failed)),
            match (manual, imported) {
                (Removal::Failed(why), _) => r matches Err(said) && said@ == why@,
                (_, Removal::Failed(why)) => r matches Err(said) && said@ == why@,
                _ => true,
            },
    {
        match Import::forget(manual) {
            Err(why) => Err(why),
            Ok(()) => Import::forget(imported),
        }
    }

    pub fn header(&self) -> (r: &str)
        ensures
            r@ == self@.header,
    {
        self.header.as_str()
    }

    pub fn sapisid(&self) -> (r: &str)
        ensures
            r@ == self@.sapisid,
    {
        self.sapisid.as_str()
    }
}

/// What is said of a cookie file that has nothing in it to sign with.
pub fn unusable_message(path: &str) -> (r: String)
    ensures
        r@ == path@
            + " has no SAPISID cookie in it. Copy the whole `cookie:` request header from a music.youtube.com request in your browser's network tab"@,
{
    text::join2(
        path,
        " has no SAPISID cookie in it. Copy the whole `cookie:` request header from a music.youtube.com request in your browser's network tab",
    )
}

/// A session that was set up interactively, and by what.
#[derive(Debug)]
pub struct Import {
    pub browser: String,
    pub header: String,
    /// When, in seconds since 1970.
    pub at: u64,
}

/// What came of removing a file.
#[derive(Debug)]
pub enum Removal {
    Removed,
    /// There was none.
    Missing,
    Failed(String),
}

impl Import {
    /// What forgetting a session comes to. One that was never there is
    /// forgotten already.
    pub fn forget(removal: Removal) -> (r: Result<(), String>)
        ensures
            match removal {
                Removal::Failed(why) => r matches Err(said) && said@ == why@,
                _ => r is Ok,
            },
    {
        match removal {
            Removal::Failed(why) => Err(why),
            _ => Ok(()),
        }
    }
}

/// The Discord application that the user has named.
#[derive(Debug)]
pub struct Discord {
    pub application_id: String,
}

impl Discord {
    /// The application that the user has named, if the name says anything.
    pub fn application_id(&self) -> (r: Option<String>)
        ensures
            text::opt_view(r) == if text::trim_of(self.application_id@).len() == 0 {
                None
            } else {
                Some(text::trim_of(self.application_id@))
            },
    {
        let chars = text::to_chars(self.application_id.as_str());
        let trimmed = text::trim(&chars);
        if trimmed.len() == 0 {
            None
        } else {
            Some(text::from_chars(&trimmed))
        }
    }
}

/// Whether what is playing may be shown to others.
#[derive(Debug, Clone, Copy, PartialEq, Eq, Structural)]
pub struct Presence {
    pub enabled: bool,
}

impl Presence {
    /// Where the switch stands, from what was read. It is off unless it was left
    /// on.
    pub fn load(saved: Option<Self>) -> (r: bool)
        ensures
            r == (saved is Some && saved->0.enabled),
    {
        match saved {
            Some(presence) => presence.enabled,
            None => false,
        }
    }
}

/// How the large cover of the current song is drawn.
#[derive(Debug, Clone, Copy, PartialEq, Eq, Structural)]
pub enum CoverStyle {
    Pixel,
    ColoredAscii,
}

/// How artwork is sent to the terminal.
#[derive(Debug, Clone, Copy, PartialEq, Eq, Structural)]
pub enum ImageRenderer {
    /// As the terminal says that it can.
    Automatic,
    Kitty,
    /// Never by an escape sequence.
    PixelArt,
}

/// The artwork of the icons.
#[derive(Debug, Clone, Copy, PartialEq, Eq, Structural)]
pub enum IconTheme {
    Signal,
    Wave,
    Orbit,
    Mono,
}

impl CoverStyle {
    /// What the settings panel calls it, and what the file calls it.
    pub open spec fn names_of(self) -> (Seq<char>, Seq<char>) {
        match self {
            CoverStyle::Pixel => ("Pixel art"@, "pixel"@),
            CoverStyle::ColoredAscii => ("Colored ASCII"@, "colored-ascii"@),
        }
    }

    /// The one after this in the ring.
    pub open spec fn after(self) -> CoverStyle {
        match self {
            CoverStyle::Pixel => CoverStyle::ColoredAscii,
            CoverStyle::ColoredAscii => CoverStyle::Pixel,
        }
    }

    pub fn label(self) -> (r: &'static str)
        ensures
            r@ == self.names_of().0,
    {
        match self {
            CoverStyle::Pixel => "Pixel art",
            CoverStyle::ColoredAscii => "Colored ASCII",
        }
    }

    pub fn config_name(self) -> (r: &'static str)
        ensures
            r@ == self.names_of().1,
    {
        match self {
            CoverStyle::Pixel => "pixel",
            CoverStyle::ColoredAscii => "colored-ascii",
        }
    }

    pub fn from_config_name(name: &str) -> (r: Option<Self>)
        ensures
            match r {
                Some(style) => style.names_of().1 == name@,
                None => forall|style: CoverStyle| (#[trigger] style.names_of()).1 != name@,
            },
    {
        if text::same(name, "pixel") {
            Some(CoverStyle::Pixel)
        } else if text::same(name, "colored-ascii") {
            Some(CoverStyle::ColoredAscii)
        } else {
            None
        }
    }

    pub fn next(self) -> (r: Self)
        ensures
            r == self.after(),
    {
        match self {
            CoverStyle::Pixel => CoverStyle::ColoredAscii,
            CoverStyle::ColoredAscii => CoverStyle::Pixel,
        }
    }

    pub fn previous(self) -> (r: Self)
        ensures
            r.after() == self,
    {
        self.next()
    }
}

impl Default for CoverStyle {
    fn default() -> (r: Self)
        ensures
            r == CoverStyle::Pixel,
    {
        CoverStyle::Pixel
    }
}

impl ImageRenderer {
    /// What the settings panel calls it, and what the file calls it.
    pub open spec fn names_of(self) -> (Seq<char>, Seq<char>) {
        match self {
            ImageRenderer::Automatic => ("Automatic"@, "automatic"@),
            ImageRenderer::Kitty => ("Kitty"@, "kitty"@),
            ImageRenderer::PixelArt => ("Pixel art"@, "pixel-art"@),
        }
    }

    /// The one after this in the ring.
    pub open spec fn after(self) -> ImageRenderer {
        match self {
            ImageRenderer::Automatic => ImageRenderer::Kitty,
            ImageRenderer::Kitty => ImageRenderer::PixelArt,
            ImageRenderer::PixelArt => ImageRenderer::Automatic,
        }
    }

    pub fn label(self) -> (r: &'static str)
        ensures
            r@ == self.names_of().0,
    {
        match self {
            ImageRenderer::Automatic => "Automatic",
            ImageRenderer::Kitty => "Kitty",
            ImageRenderer::PixelArt => "Pixel art",
        }
    }

    pub fn config_name(self) -> (r: &'static str)
        ensures
            r@ == self.names_of().1,
    {
        match self {
            ImageRenderer::Automatic => "automatic",
            ImageRenderer::Kitty => "kitty",
            ImageRenderer::PixelArt => "pixel-art",
        }
    }

    pub fn from_config_name(name: &str) -> (r: Option<Self>)
        ensures
            match r {
                Some(renderer) => renderer.names_of().1 == name@,
                None => forall|renderer: ImageRenderer|
                    (#[trigger] renderer.names_of()).1 != name@,
            },
    {
        if text::same(name, "automatic") {
            Some(ImageRenderer::Automatic)
        } else if text::same(name, "kitty") {
            Some(ImageRenderer::Kitty)
        } else if text::same(name, "pixel-art") {
            Some(ImageRenderer::PixelArt)
        } else {
            None
        }
    }

    pub fn next(self) -> (r: Self)
        ensures
            r == self.after(),
    {
        match self {
            ImageRenderer::Automatic => ImageRenderer::Kitty,
            ImageRenderer::Kitty => ImageRenderer::PixelArt,
            ImageRenderer::PixelArt => ImageRenderer::Automatic,
        }
    }

    pub fn previous(self) -> (r: Self)
        ensures
            r.after() == self,
    {
        match self {
            ImageRenderer::Automatic => ImageRenderer::PixelArt,
            ImageRenderer::Kitty => ImageRenderer::Automatic,
            ImageRenderer::PixelArt => ImageRenderer::Kitty,
        }
    }
}

impl Default for ImageRenderer {
    fn default() -> (r: Self)
        ensures
            r == ImageRenderer::Automatic,
    {
        ImageRenderer::Automatic
    }
}

impl IconTheme {
    /// What the settings panel calls it, and what the file calls it.
    pub open spec fn names_of(self) -> (Seq<char>, Seq<char>) {
        match self {
            IconTheme::Signal => ("Signal"@, "signal"@),
            IconTheme::Wave => ("Wave"@, "wave"@),
            IconTheme::Orbit => ("Orbit"@, "orbit"@),
            IconTheme::Mono => ("Mono"@, "mono"@),
        }
    }

    /// The one after this in the ring.
    pub open spec fn after(self) -> IconTheme {
        match self {
            IconTheme::Signal => IconTheme::Wave,
            IconTheme::Wave => IconTheme::Orbit,
            IconTheme::Orbit => IconTheme::Mono,
            IconTheme::Mono => IconTheme::Signal,
        }
    }

    pub fn label(self) -> (r: &'static str)
        ensures
            r@ == self.names_of().0,
    {
        match self {
            IconTheme::Signal => "Signal",
            IconTheme::Wave => "Wave",
            IconTheme::Orbit => "Orbit",
            IconTheme::Mono => "Mono",
        }
    }

    pub fn config_name(self) -> (r: &'static str)
        ensures
            r@ == self.names_of().1,
    {
        match self {
            IconTheme::Signal => "signal",
            IconTheme::Wave => "wave",
            IconTheme::Orbit => "orbit",
            IconTheme::Mono => "mono",
        }
    }

    pub fn from_config_name(name: &str) -> (r: Option<Self>)
        ensures
            match r {
                Some(theme) => theme.names_of().1 == name@,
                None => forall|theme: IconTheme| (#[trigger] theme.names_of()).1 != name@,
            },
    {
        if text::same(name, "signal") {
            Some(IconTheme::Signal)
        } else if text::same(name, "wave") {
            Some(IconTheme::Wave)
        } else if text::same(name, "orbit") {
            Some(IconTheme::Orbit)
        } else if text::same(name, "mono") {
            Some(IconTheme::Mono)
        } else {
            None
        }
    }

    pub fn next(self) -> (r: Self)
        ensures
            r == self.after(),
    {
        match self {
            IconTheme::Signal => IconTheme::Wave,
            IconTheme::Wave => IconTheme::Orbit,
            IconTheme::Orbit => IconTheme::Mono,
            IconTheme::Mono => IconTheme::Signal,
        }
    }

    pub fn previous(self) -> (r: Self)
        ensures
            r.after() == self,
    {
        match self {
            IconTheme::Signal => IconTheme::Mono,
            IconTheme::Wave => IconTheme::Signal,
            IconTheme::Orbit => IconTheme::Wave,
            IconTheme::Mono => IconTheme::Orbit,
        }
    }
}

impl Default for IconTheme {
    fn default() -> (r: Self)
        ensures
            r == IconTheme::Signal,
    {
        IconTheme::Signal
    }
}

/// Preferences changed from the settings panel.
#[derive(Debug, Clone, Copy, PartialEq, Eq, Structural)]
pub struct Settings {
    pub start_in_tray: bool,
    pub icon_theme: IconTheme,
    pub cover_style: CoverStyle,
    pub image_renderer: ImageRenderer,
}

impl Settings {
    /// The preferences of a user who has chosen nothing.
    pub open spec fn unchosen() -> Settings {
        Settings {
            start_in_tray: false,
            icon_theme: IconTheme::Signal,
            cover_style: CoverStyle::Pixel,
            image_renderer: ImageRenderer::Automatic,
        }
    }

    /// The preferences of a settings file, from the fields that it has. A field
    /// that is missing is as if it had not been chosen; a name that means
    /// nothing spoils the file.
    pub fn read(
        start_in_tray: Option<bool>,
        icon_theme: &Option<String>,
        cover_style: &Option<String>,
        image_renderer: &Option<String>,
    ) -> (r: Option<Self>)
        ensures
            match r {
                Some(s) => {
                    &&& s.start_in_tray == (start_in_tray == Some(true))
                    &&& match icon_theme {
                        Some(name) => s.icon_theme.names_of().1 == name@,
                        None => s.icon_theme == IconTheme::Signal,
                    }
                    &&& match cover_style {
                        Some(name) => s.cover_style.names_of().1 == name@,
                        None => s.cover_style == CoverStyle::Pixel,
                    }
                    &&& match image_renderer {
                        Some(name) => s.image_renderer.names_of().1 == name@,
                        None => s.image_renderer == ImageRenderer::Automatic,
                    }
                },
                None => {
                    ||| (icon_theme matches Some(name) && forall|t: IconTheme|
                        (#[trigger] t.names_of()).1 != name@)
                    ||| (cover_style matches Some(name) && forall|c: CoverStyle|
                        (#[trigger] c.names_of()).1 != name@)
                    ||| (image_renderer matches Some(name) && forall|i: ImageRenderer|
                        (#[trigger] i.names_of()).1 != name@)
                },
            },
    {
        let icon_theme = match icon_theme {
            Some(name) => match IconTheme::from_config_name(name.as_str()) {
                Some(theme) => theme,
                None => {
                    return None;
                },
            },
            None => IconTheme::Signal,
        };
        let cover_style = match cover_style {
            Some(name) => match CoverStyle::from_config_name(name.as_str()) {
                Some(style) => style,
                None => {
                    return None;
                },
            },
            None => CoverStyle::Pixel,
        };
        let image_renderer = match image_renderer {
            Some(name) => match ImageRenderer::from_config_name(name.as_str()) {
                Some(renderer) => renderer,
                None => {
                    return None;
                },
            },
            None => ImageRenderer::Automatic,
        };
        Some(
            Settings {
                start_in_tray: matches!(start_in_tray, Some(true)),
                icon_theme,
                cover_style,
                image_renderer,
            },
        )
    }

    /// The preferences to go by, from what was read. A spoiled file, or none,
    /// is as if nothing had been chosen.
    pub fn load(read: Option<Self>) -> (r: Self)
        ensures
            r == match read {
                Some(s) => s,
                None => Settings::unchosen(),
            },
    {
        match read {
            Some(s) => s,
            None => Settings::default(),
        }
    }
}

impl Default for Settings {
    fn default() -> (r: Self)
        ensures
            r == Settings::unchosen(),
    {
        Settings {
            start_in_tray: false,
            icon_theme: IconTheme::Signal,
            cover_style: CoverStyle::Pixel,
            image_renderer: ImageRenderer::Automatic,
        }
    }
}

proof fn lemma_names_apart()
    ensures
        forall|a: CoverStyle, b: CoverStyle|
            (#[trigger] a.names_of()).1 == (#[trigger] b.names_of()).1 ==> a == b,
        forall|a: ImageRenderer, b: ImageRenderer|
            (#[trigger] a.names_of()).1 == (#[trigger] b.names_of()).1 ==> a == b,
        forall|a: IconTheme, b: IconTheme|
            (#[trigger] a.names_of()).1 == (#[trigger] b.names_of()).1 ==> a == b,
{
    reveal_strlit("pixel");
    reveal_strlit("colored-ascii");
    reveal_strlit("automatic");
    reveal_strlit("kitty");
    reveal_strlit("pixel-art");
    reveal_strlit("signal");
    reveal_strlit("wave");
    reveal_strlit("orbit");
    reveal_strlit("mono");
    assert("signal"@[0] == 's' && "wave"@[0] == 'w' && "orbit"@[0] == 'o' && "mono"@[0] == 'm');
    assert("automatic"@[0] == 'a' && "kitty"@[0] == 'k' && "pixel-art"@[0] == 'p');
    assert("pixel"@[0] == 'p' && "colored-ascii"@[0] == 'c');
}

/// No two choices go by one name in the settings file, so what is written there
/// is what is read back.
pub proof fn settings_can_be_read_back(s: Settings, t: Settings)
    requires
        s.start_in_tray == t.start_in_tray,
        s.icon_theme.names_of().1 == t.icon_theme.names_of().1,
        s.cover_style.names_of().1 == t.cover_style.names_of().1,
        s.image_renderer.names_of().1 == t.image_renderer.names_of().1,
    ensures
        s == t,
{
    lemma_names_apart();
}

/// Each choice is a ring: going on often enough comes back, through all of them.
pub proof fn choices_are_rings(c: CoverStyle, i: ImageRenderer, t: IconTheme)
    ensures
        c.after() != c && c.after().after() == c,
        i.after() != i && i.after().after() != i && i.after().after().after() == i,
        t.after() != t && t.after().after() != t && t.after().after().after() != t,
        t.after().after().after().after() == t,
{
}

proof fn lemma_value_front(first: Seq<char>, rest: Seq<Seq<char>>, name: Seq<char>)
    ensures
        value_in(seq![first] + rest, name) == match pair_of(first) {
            Some((key, value)) => if key == name {
                Some(value)
            } else {
                value_in(rest, name)
            },
            None => value_in(rest, name),
        },
    decreases rest.len(),
{
    let all = seq![first] + rest;
    if rest.len() == 0 {
        assert(all.drop_last() =~= Seq::empty());
        assert(value_in(all.drop_last(), name) is None);
        assert(all.last() == first);
    } else {
        assert(all.drop_last() =~= seq![first] + rest.drop_last());
        assert(all.last() == rest.last());
        lemma_value_front(first, rest.drop_last(), name);
    }
}

proof fn lemma_pair(name: Seq<char>, value: Seq<char>)
    requires
        !name.contains('='),
    ensures
        pair_of(name.push('=') + value) == Some((text::trim_of(name), text::trim_of(value))),
{
    reveal_strlit("=");
    assert(name.push('=') + value =~= name + "="@ + value);
    text::place_is_behind_the_front(name, "="@, value);
}

/// A cookie is read by its name, whatever follows it in the header. The value may
/// hold the sign that ends the name.
pub proof fn cookie_is_read_by_its_name(name: Seq<char>, value: Seq<char>, rest: Seq<char>)
    requires
        !name.contains('='),
        !name.contains(';'),
        !value.contains(';'),
        text::trim_of(name) == name,
        text::trim_of(value) == value,
    ensures
        cookie_in(name.push('=') + value, name) == Some(value),
        cookie_in((name.push('=') + value).push(';') + rest, name) == Some(value),
{
    let piece = name.push('=') + value;
    assert(!piece.contains(';')) by {
        if piece.contains(';') {
            let k = choose|k: int| 0 <= k < piece.len() && piece[k] == ';';
            if k < name.len() {
                assert(name[k] == ';');
            } else if k > name.len() {
                assert(value[k - name.len() - 1] == ';');
            }
        }
    }
    lemma_pair(name, value);
    text::separator_ends_a_piece(piece, ';', rest);
    lemma_value_front(piece, text::split_of(rest, ';'), name);
    let none = Seq::<Seq<char>>::empty();
    lemma_value_front(piece, none, name);
    assert(seq![piece] + none =~= seq![piece]);
}

/// A cookie of another name, and what is no cookie, is passed over.
pub proof fn other_cookies_are_passed_over(piece: Seq<char>, rest: Seq<char>, name: Seq<char>)
    requires
        !piece.contains(';'),
        pair_of(piece) is Some ==> (pair_of(piece)->0).0 != name,
    ensures
        cookie_in(piece.push(';') + rest, name) == cookie_in(rest, name),
{
    text::separator_ends_a_piece(piece, ';', rest);
    lemma_value_front(piece, text::split_of(rest, ';'), name);
}

/// Requests are signed with the one cookie where it is there, and otherwise with
/// the other; and a session keeps its header as it was, but for the space around
/// it.
pub proof fn sessions_sign_with_their_cookie(raw: Seq<char>)
    ensures
        ({
            let header = text::trim_of(raw);
            let first = cookie_in(header, "SAPISID"@);
            let second = cookie_in(header, "__Secure-3PAPISID"@);
            &&& first is None && second is None <==> session_of(raw) is None
            &&& first is Some ==> session_of(raw) == Some(
                CookiesView { header, sapisid: first->0 },
            )
            &&& first is None && second is Some ==> session_of(raw) == Some(
                CookiesView { header, sapisid: second->0 },
            )
        }),
{
}

/// Each choice goes by its own name in the settings file, and comes up in its turn
/// in the settings panel.
pub proof fn choices_go_by_their_names()
    ensures
        CoverStyle::Pixel.names_of().1 == "pixel"@,
        CoverStyle::ColoredAscii.names_of().1 == "colored-ascii"@,
        ImageRenderer::Automatic.names_of().1 == "automatic"@,
        ImageRenderer::Kitty.names_of().1 == "kitty"@,
        ImageRenderer::PixelArt.names_of().1 == "pixel-art"@,
        IconTheme::Signal.names_of().1 == "signal"@,
        IconTheme::Wave.names_of().1 == "wave"@,
        IconTheme::Orbit.names_of().1 == "orbit"@,
        IconTheme::Mono.names_of().1 == "mono"@,
        ImageRenderer::Automatic.after() == ImageRenderer::Kitty,
        ImageRenderer::Kitty.after() == ImageRenderer::PixelArt,
        IconTheme::Signal.after() == IconTheme::Wave,
        IconTheme::Wave.after() == IconTheme::Orbit,
        IconTheme::Orbit.after() == IconTheme::Mono,
        Settings::unchosen().cover_style == CoverStyle::Pixel,
        Settings::unchosen().image_renderer == ImageRenderer::Automatic,
        Settings::unchosen().icon_theme == IconTheme::Signal,
        !Settings::unchosen().start_in_tray,
{
}

} // verus!
