//! Preparing a link for download: URL clean-up per site, the `yt-dlp`
//! command line, and the choices around the TikTok fallback.

use vstd::prelude::*;
use crate::error::AppError;
use crate::text::{
    before_first_of, chars_of, contains, extension, extension_of, has_prefix, has_substring,
    join_path, joined, opt_seq, replace_all, replaced, split_first_of, starts_with,
};

verus! {

/// The views of a sequence of strings.
pub open spec fn texts(v: Seq<String>) -> Seq<Seq<char>> {
    v.map_values(|s: String| s@)
}

/// Where and how media are downloaded (the HTTP client lives with the caller).
pub struct Downloader {
    pub ytdlp_path: String,
    pub temp_dir: String,
    pub extra_args: Vec<String>,
    pub cookies_file: Option<String>,
}

/// A TikTok link.
pub open spec fn is_tiktok(url: Seq<char>) -> bool {
    has_substring(url, "tiktok.com"@)
}

/// An Instagram link.
pub open spec fn is_instagram(url: Seq<char>) -> bool {
    has_substring(url, "instagram.com"@)
}

/// A TikTok photo link becomes the video link of the same post.
pub open spec fn tiktok_photo_fixed(url: Seq<char>) -> Seq<char> {
    if has_substring(url, "/photo/"@) && is_tiktok(url) {
        replaced(url, "/photo/"@, "/video/"@)
    } else {
        url
    }
}

/// An Instagram link loses its query and fragment, and `/reels/` becomes `/reel/`.
pub open spec fn instagram_normalized(url: Seq<char>) -> Seq<char> {
    if !is_instagram(url) {
        url
    } else {
        replaced(before_first_of(url, '?', '#'), "/reels/"@, "/reel/"@)
    }
}

/// The link `reference` resolved against the link `base` by the URL Standard
/// (`Url::parse(base)`, then `Url::join(reference)`, serialized); `None`
/// when either does not parse.
pub uninterp spec fn url_joined(base: Seq<char>, reference: Seq<char>) -> Option<Seq<char>>;

/// `reqwest::Url::parse` of `base`, then `Url::join` of `reference`: the
/// serialized result, named `url_joined`, or `None` on a parse error.
#[verifier::external_body]
fn join_url(base: &str, reference: &str) -> (r: Option<String>)
    ensures
        opt_seq(r) == url_joined(base@, reference@),
{
    match reqwest::Url::parse(base) {
        Ok(b) => match b.join(reference) {
            Ok(u) => Some(u.as_str().to_string()),
            Err(_) => None,
        },
        Err(_) => None,
    }
}

/// A `Location` that is an absolute HTTP(S) link.
pub open spec fn is_absolute_location(loc: Seq<char>) -> bool {
    has_prefix(loc, "http://"@) || has_prefix(loc, "https://"@)
}

/// The target of one redirect, given the resolution `joined` of the
/// `Location` against the URL: an absolute `Location` as it is; a relative
/// one resolved against the URL (the URL itself if it cannot be resolved);
/// without a `Location`, the URL itself.
pub open spec fn redirect_target(
    url: Seq<char>,
    location: Option<Seq<char>>,
    joined: Option<Seq<char>>,
) -> Seq<char> {
    match location {
        Some(loc) => if is_absolute_location(loc) {
            loc
        } else {
            match joined {
                Some(j) => j,
                None => url,
            }
        },
        None => url,
    }
}

/// The target of following one redirect with the given `Location`.
pub open spec fn followed(url: Seq<char>, location: Option<Seq<char>>) -> Seq<char> {
    redirect_target(
        url,
        location,
        match location {
            Some(loc) => url_joined(url, loc),
            None => None,
        },
    )
}

/// The URL handed to `yt-dlp`: a TikTok link after its one redirect and
/// with photo links fixed; an Instagram link normalized; any other as given.
pub open spec fn effective_link(url: Seq<char>, location: Option<Seq<char>>) -> Seq<char> {
    if is_tiktok(url) {
        tiktok_photo_fixed(followed(url, location))
    } else if is_instagram(url) {
        instagram_normalized(url)
    } else {
        url
    }
}

/// The `yt-dlp` command line: audio only, as WAV, best quality, into the
/// template, with the cookies file and the extra arguments, then the URL.
pub open spec fn ytdlp_arguments(
    template: Seq<char>,
    cookies: Option<Seq<char>>,
    extra: Seq<Seq<char>>,
    url: Seq<char>,
) -> Seq<Seq<char>> {
    seq![
        "--no-playlist"@,
        "--extract-audio"@,
        "--audio-format"@,
        "wav"@,
        "--audio-quality"@,
        "0"@,
        "--output"@,
        template,
        "--newline"@,
        "--no-warnings"@,
    ] + (match cookies {
        Some(c) => seq!["--cookies"@, c],
        None => Seq::empty(),
    }) + extra + seq![url]
}

/// The index of the first file name with extension `wav`, if any.
pub open spec fn first_wav(names: Seq<Seq<char>>) -> Option<int>
    decreases names.len(),
{
    if names.len() == 0 {
        None
    } else if extension_of(names[0]) == Some("wav"@) {
        Some(0)
    } else {
        match first_wav(names.drop_first()) {
            Some(i) => Some(i + 1),
            None => None,
        }
    }
}

fn push_lit(v: &mut Vec<String>, s: &str)
    ensures
        texts(final(v)@) == texts(old(v)@).push(s@),
{
    let ghost before = v@;
    v.push(String::from_str(s));
    assert(texts(v@) =~= texts(before).push(s@));
}

impl Downloader {
    /// A downloader with the given program, directory and options.
    pub fn new(
        ytdlp_path: String,
        temp_dir: String,
        extra_args: Vec<String>,
        cookies_file: Option<String>,
    ) -> (d: Self)
        ensures
            d.ytdlp_path == ytdlp_path,
            d.temp_dir == temp_dir,
            d.extra_args == extra_args,
            d.cookies_file == cookies_file,
    {
        Downloader { ytdlp_path, temp_dir, extra_args, cookies_file }
    }

    /// Turns a TikTok photo link into the video link of the same post.
    pub fn fix_tiktok_photo(url: &str) -> (r: String)
        ensures
            r@ == tiktok_photo_fixed(url@),
    {
        proof {
            reveal_strlit("/photo/");
        }
        if contains(url, "/photo/") && contains(url, "tiktok.com") {
            replace_all(url, "/photo/", "/video/")
        } else {
            String::from_str(url)
        }
    }

    /// Drops the query and fragment of an Instagram link and turns
    /// `/reels/` into `/reel/`.
    pub fn normalize_instagram(url: &str) -> (r: String)
        ensures
            r@ == instagram_normalized(url@),
    {
        if !contains(url, "instagram.com") {
            return String::from_str(url);
        }
        let bare = split_first_of(url, '?', '#');
        proof {
            reveal_strlit("/reels/");
        }
        replace_all(bare.as_str(), "/reels/", "/reel/")
    }

    /// Whether the link is resolved through one redirect first (TikTok short links).
    pub fn needs_redirect(url: &str) -> (b: bool)
        ensures
            b == is_tiktok(url@),
    {
        contains(url, "tiktok.com")
    }

    /// The target of one redirect, given the resolution `joined` of a
    /// relative `Location` against the URL.
    pub fn redirect_with(url: &str, location: Option<&str>, joined: Option<String>) -> (r: String)
        ensures
            r@ == redirect_target(url@, opt_str(location), opt_seq(joined)),
    {
        match location {
            Some(loc) => {
                if starts_with(loc, "http://") || starts_with(loc, "https://") {
                    String::from_str(loc)
                } else {
                    match joined {
                        Some(j) => j,
                        None => String::from_str(url),
                    }
                }
            },
            None => String::from_str(url),
        }
    }

    /// The URL reached by one redirect with the given `Location` header: a
    /// relative `Location` is resolved against the URL.
    pub fn follow_redirect(url: &str, location: Option<&str>) -> (r: String)
        ensures
            r@ == followed(url@, opt_str(location)),
    {
        let joined = match location {
            Some(loc) => join_url(url, loc),
            None => None,
        };
        Self::redirect_with(url, location, joined)
    }

    /// The URL handed to `yt-dlp`, given the `Location` of the redirect of a
    /// TikTok link (ignored for other links).
    pub fn effective_url(url: &str, location: Option<&str>) -> (r: String)
        ensures
            r@ == effective_link(url@, opt_str(location)),
    {
        if contains(url, "tiktok.com") {
            let resolved = Self::follow_redirect(url, location);
            Self::fix_tiktok_photo(resolved.as_str())
        } else if contains(url, "instagram.com") {
            Self::normalize_instagram(url)
        } else {
            String::from_str(url)
        }
    }

    /// The directory of a task's files.
    pub fn output_dir(&self, task_id: &str) -> (r: String)
        ensures
            r@ == joined(self.temp_dir@, task_id@),
    {
        join_path(self.temp_dir.as_str(), task_id)
    }

    /// The `yt-dlp` output template of a task.
    pub fn output_template(&self, task_id: &str) -> (r: String)
        ensures
            r@ == joined(joined(self.temp_dir@, task_id@), "%(id)s.%(ext)s"@),
    {
        let dir = self.output_dir(task_id);
        join_path(dir.as_str(), "%(id)s.%(ext)s")
    }

    /// The arguments `yt-dlp` is run with.
    pub fn ytdlp_args(&self, url: &str, output_template: &str) -> (v: Vec<String>)
        ensures
            texts(v@) == ytdlp_arguments(
                output_template@,
                opt_seq(self.cookies_file),
                texts(self.extra_args@),
                url@,
            ),
    {
        let mut v: Vec<String> = Vec::new();
        push_lit(&mut v, "--no-playlist");
        push_lit(&mut v, "--extract-audio");
        push_lit(&mut v, "--audio-format");
        push_lit(&mut v, "wav");
        push_lit(&mut v, "--audio-quality");
        push_lit(&mut v, "0");
        push_lit(&mut v, "--output");
        push_lit(&mut v, output_template);
        push_lit(&mut v, "--newline");
        push_lit(&mut v, "--no-warnings");
        let ghost fixed = texts(v@);
        match &self.cookies_file {
            Some(c) => {
                push_lit(&mut v, "--cookies");
                push_lit(&mut v, c.as_str());
            },
            None => {},
        }
        let ghost with_cookies = texts(v@);
        let mut i: usize = 0;
        while i < self.extra_args.len()
            invariant
                i <= self.extra_args@.len(),
                texts(v@) == with_cookies + texts(self.extra_args@).take(i as int),
            decreases self.extra_args@.len() - i,
        {
            push_lit(&mut v, self.extra_args[i].as_str());
            assert(texts(self.extra_args@).take(i + 1) =~= texts(self.extra_args@).take(
                i as int,
            ).push(self.extra_args@[i as int]@));
            i = i + 1;
        }
        assert(texts(self.extra_args@).take(self.extra_args@.len() as int) =~= texts(
            self.extra_args@,
        ));
        push_lit(&mut v, url);
        assert(texts(v@) =~= ytdlp_arguments(
            output_template@,
            opt_seq(self.cookies_file),
            texts(self.extra_args@),
            url@,
        ));
        v
    }

    /// Of the file names in the output directory, the first with extension
    /// `wav`; none is a download failure.
    pub fn pick_wav(names: &Vec<String>) -> (r: Result<usize, AppError>)
        ensures
            match first_wav(texts(names@)) {
                Some(i) => r == Ok::<usize, AppError>(i as usize),
                None => r matches Err(AppError::Download(m)) && m@
                    == "yt-dlp did not produce a wav file"@,
            },
    {
        let mut i: usize = 0;
        proof {
            assert(texts(names@).skip(0) =~= texts(names@));
        }
        while i < names.len()
            invariant
                i <= names@.len(),
                first_wav(texts(names@)) == match first_wav(texts(names@).skip(i as int)) {
                    Some(k) => Some(k + i),
                    None => None,
                },
            decreases names@.len() - i,
        {
            let ext = extension(names[i].as_str());
            let is_wav = match &ext {
                Some(e) => *e == String::from_str("wav"),
                None => false,
            };
            proof {
                assert(texts(names@).skip(i as int)[0] == names@[i as int]@);
                assert(texts(names@).skip(i as int).drop_first() =~= texts(names@).skip(i + 1));
            }
            if is_wav {
                return Ok(i);
            }
            i = i + 1;
        }
        Err(AppError::Download(String::from_str("yt-dlp did not produce a wav file")))
    }

    /// Whether a failed `yt-dlp` run is retried through TikWM: only for TikTok links.
    pub fn should_fall_back(effective_url: &str) -> (b: bool)
        ensures
            b == is_tiktok(effective_url@),
    {
        contains(effective_url, "tiktok.com")
    }
}

/// The view of an optional string slice.
pub open spec fn opt_str(v: Option<&str>) -> Option<Seq<char>> {
    match v {
        Some(s) => Some(s@),
        None => None,
    }
}

/// An upper-case hexadecimal digit.
pub open spec fn upper_hex_digit(n: int) -> char {
    if n < 10 {
        (48 + n) as char
    } else {
        (55 + n) as char
    }
}

/// A byte as the `application/x-www-form-urlencoded` byte serializer writes
/// it: `*`, `-`, `.`, `_`, digits and ASCII letters as themselves, a space
/// as `+`, any other byte as `%` and two upper-case hexadecimal digits.
pub open spec fn form_byte(b: u8) -> Seq<char> {
    if b == 42 || b == 45 || b == 46 || b == 95 || (48 <= b <= 57) || (65 <= b <= 90) || (97
        <= b <= 122) {
        seq![b as char]
    } else if b == 32 {
        seq!['+']
    } else {
        seq!['%', upper_hex_digit(b as int / 16), upper_hex_digit(b as int % 16)]
    }
}

/// The `application/x-www-form-urlencoded` serialization of some bytes.
pub open spec fn form_urlencoded(bytes: Seq<u8>) -> Seq<char>
    decreases bytes.len(),
{
    if bytes.len() == 0 {
        Seq::empty()
    } else {
        form_urlencoded(bytes.drop_last()) + form_byte(bytes.last())
    }
}

/// The TikWM API request for a link: `https://www.tikwm.com/api/` with the
/// link (as UTF-8) form-urlencoded as its `url` query parameter.
pub open spec fn tikwm_api(link: Seq<char>) -> Seq<char> {
    "https://www.tikwm.com/api/?url="@ + form_urlencoded(vstd::utf8::encode_utf8(link))
}

/// `reqwest::Url::parse_with_params("https://www.tikwm.com/api/", [("url", link)])`,
/// serialized: the base, `?`, `url=` and the form-urlencoded link. The base
/// is a fixed valid URL, so parsing it never fails and a URL always comes back.
#[verifier::external_body]
fn tikwm_query(link: &str) -> (r: Option<String>)
    ensures
        r is Some,
        r matches Some(u) ==> u@ == tikwm_api(link@),
{
    match reqwest::Url::parse_with_params("https://www.tikwm.com/api/", &[("url", link)]) {
        Ok(u) => Some(u.as_str().to_string()),
        Err(_) => None,
    }
}

/// The URL of the TikWM request for a link.
pub fn tikwm_api_url(link: &str) -> (r: String)
    ensures
        r@ == tikwm_api(link@),
{
    match tikwm_query(link) {
        Some(u) => u,
        None => String::new(),
    }
}

/// What TikWM answers, as read from its JSON: `code`, `msg` and `data.play`.
pub struct TikwmReply {
    pub code: Option<i64>,
    pub msg: Option<String>,
    pub play: Option<String>,
}

/// The media link of a TikWM answer: an answer whose code is not 0 is an
/// error carrying its message (or "unknown error"); one without
/// `data.play` is an error too.
pub fn tikwm_media_url(reply: TikwmReply) -> (r: Result<String, AppError>)
    ensures
        reply.code != Some(0i64) ==> (r matches Err(AppError::Download(m)) && m@ == "TikWM error: "@
            + match reply.msg {
            Some(msg) => msg@,
            None => "unknown error"@,
        }),
        reply.code == Some(0i64) && reply.play is None ==> (r matches Err(AppError::Download(m))
            && m@ == "TikWM response missing data.play"@),
        reply.code == Some(0i64) && reply.play is Some ==> r == Ok::<String, AppError>(
            reply.play->0,
        ),
{
    let ok = match reply.code {
        Some(c) => c == 0,
        None => false,
    };
    if !ok {
        let mut m = String::from_str("TikWM error: ");
        match &reply.msg {
            Some(msg) => m.append(msg.as_str()),
            None => m.append("unknown error"),
        }
        return Err(AppError::Download(m));
    }
    match reply.play {
        Some(p) => Ok(p),
        None => Err(AppError::Download(String::from_str("TikWM response missing data.play"))),
    }
}


/// The layout of the `yt-dlp` command line: the ten fixed options with the
/// output template after `--output`, then `--cookies <file>` when a cookies
/// file is set, then every extra argument in order, and the URL last; the
/// extra arguments are passed whether or not a cookies file is set.
pub proof fn law_ytdlp_command_layout(
    template: Seq<char>,
    cookies: Option<Seq<char>>,
    extra: Seq<Seq<char>>,
    url: Seq<char>,
)
    ensures
        ytdlp_arguments(template, cookies, extra, url).len() == 11 + extra.len() + (if cookies is Some {
            2int
        } else {
            0int
        }),
        ytdlp_arguments(template, cookies, extra, url)[6] == "--output"@,
        ytdlp_arguments(template, cookies, extra, url)[7] == template,
        ytdlp_arguments(template, cookies, extra, url).skip(
            ytdlp_arguments(template, cookies, extra, url).len() - extra.len() - 1,
        ) == extra.push(url),
        cookies matches Some(c) ==> ytdlp_arguments(template, cookies, extra, url)[10]
            == "--cookies"@ && ytdlp_arguments(template, cookies, extra, url)[11] == c,
{
    let a = ytdlp_arguments(template, cookies, extra, url);
    assert(a.skip(a.len() - extra.len() - 1) =~= extra.push(url));
}

/// A cookies file only adds `--cookies <file>` after the fixed options:
/// everything else of the command line is the same as without it.
pub proof fn law_cookies_add_only_their_pair(
    template: Seq<char>,
    cookies: Seq<char>,
    extra: Seq<Seq<char>>,
    url: Seq<char>,
)
    ensures
        ytdlp_arguments(template, Some(cookies), extra, url) == ytdlp_arguments(
            template,
            None,
            extra,
            url,
        ).take(10) + seq!["--cookies"@, cookies] + ytdlp_arguments(template, None, extra, url).skip(
            10,
        ),
{
    let a = ytdlp_arguments(template, None, extra, url);
    assert(ytdlp_arguments(template, Some(cookies), extra, url) =~= a.take(10) + seq![
        "--cookies"@,
        cookies,
    ] + a.skip(10));
}

/// A TikTok link is followed through its one redirect and its photo path
/// is then made the video path; with no `Location` that is the link itself
/// with every `/photo/` made `/video/`.
pub proof fn law_tiktok_links_are_fixed(url: Seq<char>, location: Option<Seq<char>>)
    requires
        is_tiktok(url),
    ensures
        effective_link(url, location) == tiktok_photo_fixed(followed(url, location)),
        effective_link(url, None) == (if has_substring(url, "/photo/"@) {
            replaced(url, "/photo/"@, "/video/"@)
        } else {
            url
        }),
{
}

/// The `Location` of a redirect matters only for TikTok links: any other
/// link gives the same URL with or without one, and a link of neither
/// TikTok nor Instagram is handed over as given.
pub proof fn law_location_only_for_tiktok(url: Seq<char>, location: Option<Seq<char>>)
    requires
        !is_tiktok(url),
    ensures
        effective_link(url, location) == effective_link(url, None),
        !is_instagram(url) ==> effective_link(url, location) == url,
        is_instagram(url) ==> effective_link(url, location) == replaced(
            before_first_of(url, '?', '#'),
            "/reels/"@,
            "/reel/"@,
        ),
{
}

} // verus!
