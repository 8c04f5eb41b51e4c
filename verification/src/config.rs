//! Configuration: the raw builder shapes read from the configuration file,
//! the finished [`Config`], and the rules that turn one into the other.
//!
//! Reading the configuration and key files is the caller's; the merging of
//! key overrides and the normalization performed by [`ConfigBuilder::build`]
//! are verified here.

use vstd::prelude::*;

use crate::strutil::{
    ensure_trailing_slash, pat_version, replace_version, spec_replace, spec_split, split_commas,
    views_of,
};

verus! {

// ---------------------------------------------------------------------------
// Shared display and media shapes
// ---------------------------------------------------------------------------

/// An ordered list of the fields a status line displays.
#[derive(Debug, Clone, PartialEq)]
pub struct DisplayFormat {
    pub fields: Vec<String>,
}

impl DisplayFormat {
    /// A format from its fields, kept as given.
    pub fn from_parts(fields: Vec<String>) -> (r: Self)
        ensures
            r.fields == fields,
    {
        Self { fields }
    }

    /// A format from a comma-separated list of fields.
    pub fn from_comma_list(s: &String) -> (r: Self)
        ensures
            views_of(r.fields@) == spec_split(s@),
    {
        Self { fields: split_commas(s.as_str()) }
    }
}

/// A clickable button shown under the status.
#[derive(Debug, Clone, PartialEq)]
pub struct Button {
    pub name: String,
    pub url: String,
}

/// The kind of media an item is.
#[derive(Debug, Clone, Copy, PartialEq, Eq, Structural)]
pub enum MediaType {
    Movie,
    Episode,
    LiveTv,
    Music,
    Book,
    AudioBook,
    Unknown,
}

// ---------------------------------------------------------------------------
// The finished configuration
// ---------------------------------------------------------------------------

/// Main struct containing every other struct in the file.
pub struct Config {
    /// Jellyfin configuration.
    pub jellyfin: Jellyfin,
    /// Discord configuration.
    pub discord: Discord,
    /// ImgBB configuration.
    pub imgbb: ImgBB,
    /// Images configuration.
    pub images: Images,
}

/// Every "required" part of the config.
pub struct Jellyfin {
    pub url: String,
    pub api_key: String,
    pub username: Vec<String>,
    pub music: DisplayOptions,
    pub movies: DisplayOptions,
    pub episodes: DisplayOptions,
    pub blacklist: Blacklist,
    pub self_signed_cert: bool,
    pub show_simple: bool,
    pub append_prefix: bool,
    pub add_divider: bool,
}

/// What should be displayed and what separates its parts.
pub struct DisplayOptions {
    pub display: Option<DisplayFormat>,
    pub separator: Option<String>,
}

/// Discord configuration.
pub struct Discord {
    pub application_id: Option<String>,
    pub buttons: Option<Vec<Button>>,
    pub show_paused: bool,
    pub image_text: String,
}

/// Images configuration.
#[derive(Debug, Clone, PartialEq)]
pub struct Images {
    pub pause_icon_image: Option<String>,
    pub default_image: Option<String>,
    pub episode_image: Option<String>,
    pub movie_image: Option<String>,
    pub tv_image: Option<String>,
    pub music_image: Option<String>,
    pub audio_book_image: Option<String>,
    pub book_image: Option<String>,
    pub enable_images: bool,
    pub imgbb_images: bool,
}

// ---------------------------------------------------------------------------
// The builder shapes, as read from the configuration file
// ---------------------------------------------------------------------------

#[derive(Debug, Clone, PartialEq)]
pub struct ConfigBuilder {
    pub jellyfin: JellyfinBuilder,
    pub discord: Option<DiscordBuilder>,
    pub imgbb: Option<ImgBB>,
    pub images: Option<ImagesBuilder>,
}

#[derive(Debug, Clone, PartialEq)]
pub struct JellyfinBuilder {
    pub url: String,
    pub api_key: Option<String>,
    pub username: Username,
    pub music: Option<DisplayOptionsBuilder>,
    pub movies: Option<DisplayOptionsBuilder>,
    pub episodes: Option<DisplayOptionsBuilder>,
    pub blacklist: Option<Blacklist>,
    pub self_signed_cert: Option<bool>,
    pub show_simple: Option<bool>,
    pub append_prefix: Option<bool>,
    pub add_divider: Option<bool>,
}

/// A username entry: either a list of names or one name.
#[derive(Debug, Clone, PartialEq)]
pub enum Username {
    Vec(Vec<String>),
    String(String),
}

#[derive(Debug, Clone, PartialEq)]
pub struct DisplayOptionsBuilder {
    pub display: Option<Display>,
    pub separator: Option<String>,
}

/// A display entry: a list of fields, a comma-separated list, or a finished
/// format.
#[derive(Debug, Clone, PartialEq)]
pub enum Display {
    Vec(Vec<String>),
    String(String),
    CustomFormat(DisplayFormat),
}

/// Media types and libraries to pass over.
#[derive(Debug, Clone, PartialEq)]
pub struct Blacklist {
    pub media_types: Option<Vec<MediaType>>,
    pub libraries: Option<Vec<String>>,
}

#[derive(Debug, Clone, PartialEq)]
pub struct DiscordBuilder {
    pub application_id: Option<String>,
    pub buttons: Option<Vec<Button>>,
    pub show_paused: Option<bool>,
    pub image_text: Option<String>,
}

/// ImgBB configuration.
#[derive(Debug, Clone, PartialEq)]
pub struct ImgBB {
    /// The api token used to upload images.
    pub api_token: Option<String>,
    /// The expiration before the image is deleted, in seconds.
    pub expiration: Option<usize>,
}

#[derive(Debug, Clone, PartialEq)]
pub struct ImagesBuilder {
    pub pause_icon_image: Option<String>,
    pub default_image: Option<String>,
    pub episode_image: Option<String>,
    pub movie_image: Option<String>,
    pub tv_image: Option<String>,
    pub music_image: Option<String>,
    pub audio_book_image: Option<String>,
    pub book_image: Option<String>,
    pub enable_images: Option<bool>,
    pub imgbb_images: Option<bool>,
}

/// Failures of loading the configuration.
#[derive(Debug, Clone, Copy, PartialEq, Eq, Structural)]
pub enum ConfigBuilderLoaderError {
    InvalidJellyfinKeyPath,
    InvalidImgBBKeyPath,
    InvalidConfigPath,
    InvalidConfig,
    MissingJellyfinKey,
}

// ---------------------------------------------------------------------------
// The version text
// ---------------------------------------------------------------------------

/// The version the status text advertises.
pub open spec fn spec_version() -> Seq<char> {
    seq!['1', '.', '0', '.', '0']
}

/// The status image text used when the user supplies none.
pub open spec fn spec_default_image_text() -> Seq<char> {
    seq!['t', 'e', 's', 't', 's'] + spec_version()
}

/// The version as a string.
pub fn version_text() -> (r: String)
    ensures
        r@ == spec_version(),
{
    let r = String::from_str("1.0.0");
    proof {
        reveal_strlit("1.0.0");
        assert("1.0.0"@ =~= spec_version());
    }
    r
}

fn default_image_text() -> (r: String)
    ensures
        r@ == spec_default_image_text(),
{
    let r = String::from_str("tests1.0.0");
    proof {
        reveal_strlit("tests1.0.0");
        assert("tests1.0.0"@ =~= spec_default_image_text());
    }
    r
}

// ---------------------------------------------------------------------------
// Building
// ---------------------------------------------------------------------------

/// How a finished [`DisplayOptions`] relates to its builder entry: a list of
/// fields is kept, a comma-separated list is split, a finished format passes
/// through, and an absent entry yields nothing.
pub open spec fn display_options_match(b: Option<DisplayOptionsBuilder>, o: DisplayOptions) -> bool {
    match b {
        Some(db) => {
            &&& match db.display {
                Some(Display::Vec(v)) => o.display matches Some(df) && df.fields == v,
                Some(Display::String(st)) => o.display matches Some(df)
                    && views_of(df.fields@) == spec_split(st@),
                Some(Display::CustomFormat(df0)) => o.display == Some(df0),
                None => o.display is None,
            }
            &&& o.separator == db.separator
        },
        None => o.display is None && o.separator is None,
    }
}

fn display_options_from(b: Option<DisplayOptionsBuilder>) -> (o: DisplayOptions)
    ensures
        display_options_match(b, o),
{
    match b {
        Some(db) => {
            let display = match db.display {
                Some(Display::Vec(v)) => Some(DisplayFormat::from_parts(v)),
                Some(Display::String(st)) => Some(DisplayFormat::from_comma_list(&st)),
                Some(Display::CustomFormat(df0)) => Some(df0),
                None => None,
            };
            DisplayOptions { display, separator: db.separator }
        },
        None => DisplayOptions { display: None, separator: None },
    }
}

impl Config {
    /// A fresh builder, with every default in place.
    pub fn builder() -> (r: ConfigBuilder)
        ensures
            builder_is_default(r),
    {
        ConfigBuilder::new()
    }
}

/// The defaults a fresh builder holds: empty server URL, one empty username,
/// no key, nothing else configured, and the three formatting toggles off.
pub open spec fn builder_is_default(r: ConfigBuilder) -> bool {
    &&& r.jellyfin.url@ == Seq::<char>::empty()
    &&& r.jellyfin.username matches Username::String(u) && u@ == Seq::<char>::empty()
    &&& r.jellyfin.api_key is None
    &&& r.jellyfin.music is None
    &&& r.jellyfin.movies is None
    &&& r.jellyfin.episodes is None
    &&& r.jellyfin.blacklist is None
    &&& r.jellyfin.self_signed_cert is None
    &&& r.jellyfin.show_simple == Some(false)
    &&& r.jellyfin.append_prefix == Some(false)
    &&& r.jellyfin.add_divider == Some(false)
    &&& r.discord is None
    &&& r.imgbb is None
    &&& r.images is None
}

impl ConfigBuilder {
    /// A fresh builder, with every default in place.
    pub fn new() -> (r: Self)
        ensures
            builder_is_default(r),
    {
        Self {
            jellyfin: JellyfinBuilder {
                url: String::new(),
                username: Username::String(String::new()),
                api_key: None,
                music: None,
                movies: None,
                episodes: None,
                blacklist: None,
                self_signed_cert: None,
                show_simple: Some(false),
                append_prefix: Some(false),
                add_divider: Some(false),
            },
            discord: None,
            imgbb: None,
            images: None,
        }
    }

    /// Turns the raw builder into the finished configuration: usernames and
    /// display lists are split at commas, the server URL gains its trailing
    /// slash, the version placeholder in the image text is substituted, and
    /// every absent toggle falls back to its default.
    pub fn build(self) -> (c: Config)
        ensures
            ({ let u = self.jellyfin.url@;
                if u.len() > 0 && u.last() == '/' { c.jellyfin.url@ == u }
                else { c.jellyfin.url@ == u.push('/') } }),
            c.jellyfin.api_key@ == (match self.jellyfin.api_key {
                Some(k) => k@,
                None => Seq::<char>::empty(),
            }),
            (match self.jellyfin.username {
                Username::Vec(v) => c.jellyfin.username == v,
                Username::String(st) => views_of(c.jellyfin.username@) == spec_split(st@),
            }),
            display_options_match(self.jellyfin.music, c.jellyfin.music),
            display_options_match(self.jellyfin.movies, c.jellyfin.movies),
            display_options_match(self.jellyfin.episodes, c.jellyfin.episodes),
            (match self.jellyfin.blacklist {
                Some(b) => c.jellyfin.blacklist.media_types == b.media_types
                    && c.jellyfin.blacklist.libraries == b.libraries,
                None => c.jellyfin.blacklist.media_types is None
                    && c.jellyfin.blacklist.libraries is None,
            }),
            c.jellyfin.self_signed_cert == (match self.jellyfin.self_signed_cert {
                Some(b) => b, None => false }),
            c.jellyfin.show_simple == (match self.jellyfin.show_simple {
                Some(b) => b, None => false }),
            c.jellyfin.append_prefix == (match self.jellyfin.append_prefix {
                Some(b) => b, None => false }),
            c.jellyfin.add_divider == (match self.jellyfin.add_divider {
                Some(b) => b, None => false }),
            (match self.discord {
                Some(d) => {
                    &&& c.discord.application_id == d.application_id
                    &&& c.discord.buttons == d.buttons
                    &&& c.discord.show_paused == (match d.show_paused {
                        Some(b) => b, None => true })
                    &&& match d.image_text {
                        Some(t) => c.discord.image_text@
                            == spec_replace(t@, pat_version(), spec_version()),
                        None => c.discord.image_text@ == spec_default_image_text(),
                    }
                },
                None => {
                    &&& c.discord.application_id is None
                    &&& c.discord.buttons is None
                    &&& c.discord.show_paused
                    &&& c.discord.image_text@ == spec_default_image_text()
                },
            }),
            (match self.imgbb {
                Some(i) => c.imgbb == i,
                None => c.imgbb.api_token is None && c.imgbb.expiration is None,
            }),
            (match self.images {
                Some(im) => {
                    &&& c.images.pause_icon_image == im.pause_icon_image
                    &&& c.images.default_image == im.default_image
                    &&& c.images.episode_image == im.episode_image
                    &&& c.images.movie_image == im.movie_image
                    &&& c.images.tv_image == im.tv_image
                    &&& c.images.music_image == im.music_image
                    &&& c.images.audio_book_image == im.audio_book_image
                    &&& c.images.book_image == im.book_image
                    &&& c.images.enable_images == (match im.enable_images {
                        Some(b) => b, None => false })
                    &&& c.images.imgbb_images == (match im.imgbb_images {
                        Some(b) => b, None => false })
                },
                None => {
                    &&& c.images.pause_icon_image is None
                    &&& c.images.default_image is None
                    &&& c.images.episode_image is None
                    &&& c.images.movie_image is None
                    &&& c.images.tv_image is None
                    &&& c.images.music_image is None
                    &&& c.images.audio_book_image is None
                    &&& c.images.book_image is None
                    &&& !c.images.enable_images
                    &&& !c.images.imgbb_images
                },
            }),
    {
        let username = match self.jellyfin.username {
            Username::Vec(usernames) => usernames,
            Username::String(username) => split_commas(username.as_str()),
        };

        let music = display_options_from(self.jellyfin.music);
        let movies = display_options_from(self.jellyfin.movies);
        let episodes = display_options_from(self.jellyfin.episodes);

        let media_types;
        let libraries;

        match self.jellyfin.blacklist {
            Some(blacklist) => {
                media_types = blacklist.media_types;
                libraries = blacklist.libraries;
            },
            None => {
                media_types = None;
                libraries = None;
            },
        }

        let application_id;
        let buttons;
        let show_paused;
        let mut image_text = default_image_text();

        match self.discord {
            Some(discord) => {
                application_id = discord.application_id;
                buttons = discord.buttons;
                show_paused = match discord.show_paused {
                    Some(b) => b,
                    None => true,
                };
                match discord.image_text {
                    Some(text) => {
                        let version = version_text();
                        image_text = replace_version(text.as_str(), version.as_str());
                    },
                    None => {},
                }
            },
            None => {
                application_id = None;
                buttons = None;
                show_paused = true;
            },
        }

        let api_token;
        let expiration;

        match self.imgbb {
            Some(imgbb) => {
                api_token = imgbb.api_token;
                expiration = imgbb.expiration;
            },
            None => {
                api_token = None;
                expiration = None;
            },
        }

        let pause_icon_image;
        let default_image;
        let episode_image;
        let movie_image;
        let tv_image;
        let music_image;
        let audio_book_image;
        let book_image;
        let enable_images;
        let imgbb_images;

        match self.images {
            Some(images) => {
                pause_icon_image = images.pause_icon_image;
                default_image = images.default_image;
                episode_image = images.episode_image;
                movie_image = images.movie_image;
                tv_image = images.tv_image;
                music_image = images.music_image;
                audio_book_image = images.audio_book_image;
                book_image = images.book_image;
                enable_images = match images.enable_images {
                    Some(b) => b,
                    None => false,
                };
                imgbb_images = match images.imgbb_images {
                    Some(b) => b,
                    None => false,
                };
            },
            None => {
                pause_icon_image = None;
                default_image = None;
                episode_image = None;
                movie_image = None;
                tv_image = None;
                music_image = None;
                audio_book_image = None;
                book_image = None;
                enable_images = false;
                imgbb_images = false;
            },
        }

        let url = ensure_trailing_slash(self.jellyfin.url);

        let api_key = match self.jellyfin.api_key {
            Some(k) => k,
            None => String::new(),
        };

        Config {
            jellyfin: Jellyfin {
                url,
                api_key,
                username,
                music,
                movies,
                episodes,
                blacklist: Blacklist { media_types, libraries },
                self_signed_cert: match self.jellyfin.self_signed_cert {
                    Some(b) => b,
                    None => false,
                },
                show_simple: match self.jellyfin.show_simple {
                    Some(b) => b,
                    None => false,
                },
                append_prefix: match self.jellyfin.append_prefix {
                    Some(b) => b,
                    None => false,
                },
                add_divider: match self.jellyfin.add_divider {
                    Some(b) => b,
                    None => false,
                },
            },
            discord: Discord { application_id, buttons, show_paused, image_text },
            imgbb: ImgBB { api_token, expiration },
            images: Images {
                pause_icon_image,
                default_image,
                episode_image,
                movie_image,
                tv_image,
                music_image,
                audio_book_image,
                book_image,
                enable_images,
                imgbb_images,
            },
        }
    }
}

// ---------------------------------------------------------------------------
// Key overrides
// ---------------------------------------------------------------------------

/// What trimming makes of a string: its text without leading and trailing
/// whitespace. The outcome depends on the characters alone.
pub uninterp spec fn trimmed(s: Seq<char>) -> Seq<char>;

/// Relies on std's `str::trim`: removes leading and trailing whitespace,
/// depending on the characters of the string alone.
#[verifier::external_body]
fn trim_string(s: &String) -> (r: String)
    ensures
        r@ == trimmed(s@),
{
    String::from(s.trim())
}

impl ConfigBuilder {
    /// Applies the contents of the optional key files to the builder: a
    /// supplied Jellyfin or ImgBB key, trimmed, overrides whatever the
    /// configuration file held. A builder that ends up with no Jellyfin key
    /// is rejected.
    pub fn apply_key_overrides(
        self,
        jellyfin_key: Option<String>,
        imgbb_key: Option<String>,
    ) -> (r: Result<ConfigBuilder, ConfigBuilderLoaderError>)
        ensures
            match r {
                Ok(cb) => {
                    &&& cb.jellyfin.url == self.jellyfin.url
                    &&& cb.jellyfin.username == self.jellyfin.username
                    &&& cb.jellyfin.music == self.jellyfin.music
                    &&& cb.jellyfin.movies == self.jellyfin.movies
                    &&& cb.jellyfin.episodes == self.jellyfin.episodes
                    &&& cb.jellyfin.blacklist == self.jellyfin.blacklist
                    &&& cb.jellyfin.self_signed_cert == self.jellyfin.self_signed_cert
                    &&& cb.jellyfin.show_simple == self.jellyfin.show_simple
                    &&& cb.jellyfin.append_prefix == self.jellyfin.append_prefix
                    &&& cb.jellyfin.add_divider == self.jellyfin.add_divider
                    &&& cb.discord == self.discord
                    &&& cb.images == self.images
                    &&& match jellyfin_key {
                        Some(k) => cb.jellyfin.api_key matches Some(a) && a@ == trimmed(k@),
                        None => cb.jellyfin.api_key == self.jellyfin.api_key,
                    }
                    &&& cb.jellyfin.api_key is Some
                    &&& match imgbb_key {
                        Some(k) => cb.imgbb matches Some(ib)
                            && ib.api_token matches Some(t) && t@ == trimmed(k@)
                            && ib.expiration == (match self.imgbb {
                                Some(i0) => i0.expiration,
                                None => None::<usize>,
                            }),
                        None => cb.imgbb == self.imgbb,
                    }
                },
                Err(e) => {
                    &&& e == ConfigBuilderLoaderError::MissingJellyfinKey
                    &&& jellyfin_key is None
                    &&& self.jellyfin.api_key is None
                },
            },
    {
        let mut config = self;

        match jellyfin_key {
            Some(k) => {
                config.jellyfin.api_key = Some(trim_string(&k));
            },
            None => {},
        }

        match imgbb_key {
            Some(k) => {
                let key_data = trim_string(&k);
                match config.imgbb {
                    Some(imgbb) => {
                        config.imgbb = Some(ImgBB {
                            api_token: Some(key_data),
                            expiration: imgbb.expiration,
                        });
                    },
                    None => {
                        config.imgbb = Some(ImgBB { api_token: Some(key_data), expiration: None });
                    },
                }
            },
            None => {},
        }

        if config.jellyfin.api_key.is_none() {
            return Err(ConfigBuilderLoaderError::MissingJellyfinKey);
        }

        Ok(config)
    }
}

// ---------------------------------------------------------------------------
// Well-known file locations
// ---------------------------------------------------------------------------

/// The cache file's place under a configuration directory.
pub fn urls_path_in(config_home: String, windows: bool) -> (r: String)
    ensures
        windows ==> r@ == config_home@ + "\\jellyfin-rpc\\urls.json"@,
        !windows ==> r@ == config_home@ + "/jellyfin-rpc/urls.json"@,
{
    if windows {
        config_home.concat("\\jellyfin-rpc\\urls.json")
    } else {
        config_home.concat("/jellyfin-rpc/urls.json")
    }
}

/// The configuration file's place under a configuration directory.
pub fn config_path_in(config_home: String, windows: bool) -> (r: String)
    ensures
        windows ==> r@ == config_home@ + "\\jellyfin-rpc\\main.json"@,
        !windows ==> r@ == config_home@ + "/jellyfin-rpc/main.json"@,
{
    if windows {
        config_home.concat("\\jellyfin-rpc\\main.json")
    } else {
        config_home.concat("/jellyfin-rpc/main.json")
    }
}

} // verus!
