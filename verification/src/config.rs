//! Service configuration: defaults, provider sections and the environment
//! variables that fill in what the configuration sources left out.

use vstd::prelude::*;
use crate::text::decimal;

verus! {

/// Default listening host.
pub fn default_host() -> (s: String)
    ensures
        s@ == "0.0.0.0"@,
{
    String::from_str("0.0.0.0")
}

/// Default listening port.
pub fn default_port() -> (p: u16)
    ensures
        p == 3000,
{
    3000
}

/// Default directory for temporary files.
pub fn default_temp_dir() -> (s: String)
    ensures
        s@ == "./tmp"@,
{
    String::from_str("./tmp")
}

/// Default lifetime of cached results, in hours (one week).
pub fn default_cache_ttl_hours() -> (h: i64)
    ensures
        h == 168,
{
    168
}

/// Default number of tasks handled at once.
pub fn default_max_concurrent_tasks() -> (n: usize)
    ensures
        n == 4,
{
    4
}

/// Default path of the `yt-dlp` program.
pub fn default_ytdlp_path() -> (s: String)
    ensures
        s@ == "yt-dlp"@,
{
    String::from_str("yt-dlp")
}

/// Default path of the `ffmpeg` program.
pub fn default_ffmpeg_path() -> (s: String)
    ensures
        s@ == "ffmpeg"@,
{
    String::from_str("ffmpeg")
}

/// Default path of the `fpcalc` program.
pub fn default_fpcalc_path() -> (s: String)
    ensures
        s@ == "fpcalc"@,
{
    String::from_str("fpcalc")
}

/// Default AcoustID lookup endpoint.
pub fn default_acoustid_url() -> (s: String)
    ensures
        s@ == "https://api.acoustid.org/v2/lookup"@,
{
    String::from_str("https://api.acoustid.org/v2/lookup")
}

/// Default interval between ad refreshes, in seconds.
pub fn default_ad_refresh_secs() -> (n: u64)
    ensures
        n == 60,
{
    60
}

/// The placeholder API key of the example configuration.
pub open spec fn placeholder_key() -> Seq<char> {
    "sua_chave_aqui"@
}

/// AcoustID settings.
pub struct AcoustIdConfig {
    pub url: String,
    pub api_key: String,
    pub fpcalc_path: String,
}

impl AcoustIdConfig {
    /// A real key is configured: not empty and not the placeholder.
    pub open spec fn is_enabled(&self) -> bool {
        self.api_key@.len() > 0 && self.api_key@ != placeholder_key()
    }

    /// Whether AcoustID can be used.
    pub fn enabled(&self) -> (b: bool)
        ensures
            b == self.is_enabled(),
    {
        !self.api_key.as_str().is_empty() && self.api_key != String::from_str("sua_chave_aqui")
    }
}

/// ACRCloud settings.
pub struct AcrCloudConfig {
    pub host: String,
    pub access_key: String,
    pub access_secret: String,
}

/// Shazam settings (none yet).
pub struct ShazamConfig {}

/// A house (self-served) ad for one slot.
pub struct HouseAdSlot {
    pub slot: String,
    pub image_url: String,
    pub dest_url: String,
    pub alt: Option<String>,
    /// Bits of the `f64` CPM.
    pub cpm_bits: Option<u64>,
}

/// An Adsterra ad for one slot.
pub struct AdsterraConfig {
    pub slot: String,
    pub script_src: Option<String>,
    pub redirect_url: Option<String>,
    pub container_id: Option<String>,
    /// Bits of the `f64` CPM.
    pub cpm_bits: Option<u64>,
}

/// Ad settings.
pub struct AdsConfig {
    pub house: Vec<HouseAdSlot>,
    pub adsterra: Vec<AdsterraConfig>,
    pub adsense_client: Option<String>,
    pub carbon_uid: Option<String>,
    pub refresh_secs: u64,
}

impl Default for AdsConfig {
    fn default() -> (c: Self)
        ensures
            c.house@.len() == 0,
            c.adsterra@.len() == 0,
            c.adsense_client is None,
            c.carbon_uid is None,
            c.refresh_secs == 0,
    {
        AdsConfig {
            house: Vec::new(),
            adsterra: Vec::new(),
            adsense_client: None,
            carbon_uid: None,
            refresh_secs: 0,
        }
    }
}

impl AdsConfig {
    /// The ad providers that have something configured, in a fixed order:
    /// house, adsterra, adsense, carbon.
    pub open spec fn providers(&self) -> Seq<Seq<char>> {
        let a: Seq<Seq<char>> = if self.house@.len() > 0 { seq!["house"@] } else { seq![] };
        let b: Seq<Seq<char>> = if self.adsterra@.len() > 0 { seq!["adsterra"@] } else { seq![] };
        let c: Seq<Seq<char>> = if self.adsense_client is Some { seq!["adsense"@] } else { seq![] };
        let d: Seq<Seq<char>> = if self.carbon_uid is Some { seq!["carbon"@] } else { seq![] };
        a + b + c + d
    }

    /// Names of the ad providers that have something configured.
    pub fn enabled_providers(&self) -> (v: Vec<&'static str>)
        ensures
            v@.map_values(|s: &'static str| s@) == self.providers(),
    {
        let mut v: Vec<&'static str> = Vec::new();
        if !self.house.is_empty() {
            v.push("house");
        }
        if !self.adsterra.is_empty() {
            v.push("adsterra");
        }
        if self.adsense_client.is_some() {
            v.push("adsense");
        }
        if self.carbon_uid.is_some() {
            v.push("carbon");
        }
        assert(v@.map_values(|s: &'static str| s@) =~= self.providers());
        v
    }
}

/// The whole service configuration.
pub struct Config {
    pub host: String,
    pub port: u16,
    pub acoustid: Option<AcoustIdConfig>,
    pub acrcloud: Option<AcrCloudConfig>,
    pub shazam: Option<ShazamConfig>,
    pub temp_dir: String,
    pub cache_ttl_hours: i64,
    pub max_concurrent_tasks: usize,
    pub ytdlp_path: String,
    pub ffmpeg_path: String,
    pub ytdlp_extra_args: Vec<String>,
    pub ytdlp_cookies_file: Option<String>,
    pub ads: AdsConfig,
}

/// The environment variables the configuration falls back on, as read
/// (`None` when a variable is unset or not Unicode).
pub struct EnvFallbacks {
    /// `SONGFINDER_YTDLP_COOKIES_FILE`
    pub ytdlp_cookies_file: Option<String>,
    /// `SONGFINDER_ACOUSTID__API_KEY`
    pub acoustid_api_key: Option<String>,
    /// `SONGFINDER_ACOUSTID__URL`
    pub acoustid_url: Option<String>,
    /// `SONGFINDER_ACOUSTID__FPCALC_PATH`
    pub acoustid_fpcalc_path: Option<String>,
    /// `SONGFINDER_ACRCLOUD__HOST`
    pub acrcloud_host: Option<String>,
    /// `SONGFINDER_ACRCLOUD__ACCESS_KEY`
    pub acrcloud_access_key: Option<String>,
    /// `SONGFINDER_ACRCLOUD__ACCESS_SECRET`
    pub acrcloud_access_secret: Option<String>,
    /// `SONGFINDER_YTDLP_EXTRA_ARGS`
    pub ytdlp_extra_args: Option<String>,
}

/// The words of a shell command line as `shlex::split` reads them (POSIX
/// shell syntax), or `None` when the line is malformed.
pub uninterp spec fn shell_words(line: Seq<char>) -> Option<Seq<Seq<char>>>;

/// `shlex::split`: the line split into words by POSIX shell rules; the
/// result is named `shell_words` and nothing more of it is stated.
#[verifier::external_body]
fn shlex_split(line: &str) -> (r: Option<Vec<String>>)
    ensures
        match r {
            Some(v) => shell_words(line@) == Some(v@.map_values(|w: String| w@)),
            None => shell_words(line@) is None,
        },
{
    shlex::split(line)
}

/// The non-empty words of `words`, in order.
pub open spec fn non_empty_words(words: Seq<Seq<char>>) -> Seq<Seq<char>>
    decreases words.len(),
{
    if words.len() == 0 {
        words
    } else if words.last().len() > 0 {
        non_empty_words(words.drop_last()).push(words.last())
    } else {
        non_empty_words(words.drop_last())
    }
}

/// The extra `yt-dlp` arguments read from a command line: its words, none
/// if it is malformed, without empty words.
pub open spec fn extra_args_from(line: Seq<char>) -> Seq<Seq<char>> {
    match shell_words(line) {
        Some(w) => non_empty_words(w),
        None => Seq::empty(),
    }
}

/// Splits a command line into its non-empty words (no words if it is malformed).
pub fn split_extra_args(line: &str) -> (v: Vec<String>)
    ensures
        v@.map_values(|w: String| w@) == extra_args_from(line@),
{
    let words = match shlex_split(line) {
        Some(w) => w,
        None => Vec::new(),
    };
    let ghost wv = words@.map_values(|w: String| w@);
    assert(match shell_words(line@) {
        Some(w) => w == wv,
        None => wv == Seq::<Seq<char>>::empty(),
    });
    let mut out: Vec<String> = Vec::new();
    for w in it: words.into_iter()
        invariant
            it.seq().map_values(|w: String| w@) == wv,
            out@.map_values(|w: String| w@) == non_empty_words(wv.take(it.index() as int)),
    {
        proof {
            assert(wv.take(it.index() + 1).drop_last() =~= wv.take(it.index() as int));
            assert(wv[it.index() as int] == w@);
        }
        if !w.as_str().is_empty() {
            let ghost before = out@;
            out.push(w);
            assert(out@.map_values(|w: String| w@) =~= before.map_values(|w: String| w@).push(
                w@,
            ));
        }
    }
    proof {
        assert(wv.take(wv.len() as int) =~= wv);
    }
    out
}

/// The string is present and not empty.
pub open spec fn given(v: Option<String>) -> bool {
    v matches Some(s) && s@.len() > 0
}

fn is_given(v: &Option<String>) -> (b: bool)
    ensures
        b == given(*v),
{
    match v {
        Some(s) => !s.as_str().is_empty(),
        None => false,
    }
}

impl Config {
    /// The configuration completed from the environment: each of these is
    /// filled in only where the configuration sources left it out.
    /// - the cookies file, from a non-empty `SONGFINDER_YTDLP_COOKIES_FILE`;
    /// - AcoustID, from an API key that is neither empty nor the
    ///   placeholder, with the URL and `fpcalc` path from their variables
    ///   or their defaults;
    /// - ACRCloud, when host, access key and secret are all set and non-empty;
    /// - Shazam, always;
    /// - the extra `yt-dlp` arguments, from the words of
    ///   `SONGFINDER_YTDLP_EXTRA_ARGS` when it is set.
    pub fn with_fallbacks(self, env: EnvFallbacks) -> (c: Config)
        ensures
            c.host == self.host,
            c.port == self.port,
            c.temp_dir == self.temp_dir,
            c.cache_ttl_hours == self.cache_ttl_hours,
            c.max_concurrent_tasks == self.max_concurrent_tasks,
            c.ytdlp_path == self.ytdlp_path,
            c.ffmpeg_path == self.ffmpeg_path,
            c.ads == self.ads,
            c.ytdlp_cookies_file == (if self.ytdlp_cookies_file is None && given(
                env.ytdlp_cookies_file,
            ) {
                env.ytdlp_cookies_file
            } else {
                self.ytdlp_cookies_file
            }),
            (self.acoustid is None && given(env.acoustid_api_key)
                && env.acoustid_api_key->0@ != placeholder_key()) ==> (c.acoustid matches Some(
                a,
            ) && a.api_key == env.acoustid_api_key->0 && a.url@ == (match env.acoustid_url {
                Some(u) => u@,
                None => "https://api.acoustid.org/v2/lookup"@,
            }) && a.fpcalc_path@ == (match env.acoustid_fpcalc_path {
                Some(p) => p@,
                None => "fpcalc"@,
            })),
            !(self.acoustid is None && given(env.acoustid_api_key)
                && env.acoustid_api_key->0@ != placeholder_key()) ==> c.acoustid == self.acoustid,
            (self.acrcloud is None && given(env.acrcloud_host) && given(env.acrcloud_access_key)
                && given(env.acrcloud_access_secret)) ==> c.acrcloud == Some(
                AcrCloudConfig {
                    host: env.acrcloud_host->0,
                    access_key: env.acrcloud_access_key->0,
                    access_secret: env.acrcloud_access_secret->0,
                },
            ),
            !(self.acrcloud is None && given(env.acrcloud_host) && given(env.acrcloud_access_key)
                && given(env.acrcloud_access_secret)) ==> c.acrcloud == self.acrcloud,
            c.shazam is Some,
            self.shazam is Some ==> c.shazam == self.shazam,
            (self.ytdlp_extra_args@.len() == 0 && env.ytdlp_extra_args is Some) ==> c.ytdlp_extra_args@.map_values(
                |w: String| w@,
            ) == extra_args_from(env.ytdlp_extra_args->0@),
            !(self.ytdlp_extra_args@.len() == 0 && env.ytdlp_extra_args is Some)
                ==> c.ytdlp_extra_args == self.ytdlp_extra_args,
    {
        let mut config = self;
        let cookies_given = is_given(&env.ytdlp_cookies_file);
        if config.ytdlp_cookies_file.is_none() && cookies_given {
            config.ytdlp_cookies_file = env.ytdlp_cookies_file;
        }
        let key_given = is_given(&env.acoustid_api_key);
        if config.acoustid.is_none() && key_given {
            let api_key = match env.acoustid_api_key {
                Some(k) => k,
                None => String::new(),
            };
            if api_key != String::from_str("sua_chave_aqui") {
                let url = match env.acoustid_url {
                    Some(u) => u,
                    None => default_acoustid_url(),
                };
                let fpcalc_path = match env.acoustid_fpcalc_path {
                    Some(p) => p,
                    None => default_fpcalc_path(),
                };
                config.acoustid = Some(AcoustIdConfig { url, api_key, fpcalc_path });
            }
        }
        let acr_given = is_given(&env.acrcloud_host) && is_given(&env.acrcloud_access_key)
            && is_given(&env.acrcloud_access_secret);
        if config.acrcloud.is_none() && acr_given {
            match (env.acrcloud_host, env.acrcloud_access_key, env.acrcloud_access_secret) {
                (Some(host), Some(access_key), Some(access_secret)) => {
                    config.acrcloud = Some(AcrCloudConfig { host, access_key, access_secret });
                },
                _ => {},
            }
        }
        if config.shazam.is_none() {
            config.shazam = Some(ShazamConfig {  });
        }
        if config.ytdlp_extra_args.is_empty() {
            match env.ytdlp_extra_args {
                Some(line) => {
                    config.ytdlp_extra_args = split_extra_args(line.as_str());
                },
                None => {},
            }
        }
        config
    }

    /// `host:port`, the text the listening address is parsed from.
    pub fn addr_text(&self) -> (s: String)
        ensures
            s@ == self.host@ + seq![':'] + decimal(self.port as nat),
    {
        let mut s = self.host.clone();
        crate::text::push_char(&mut s, ':');
        crate::text::push_decimal(&mut s, self.port as u64);
        s
    }
}

} // verus!
