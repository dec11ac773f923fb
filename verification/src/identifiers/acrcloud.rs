//! ACRCloud: signed identification requests and the songs of their answers.

use base64::Engine;
use vstd::prelude::*;
use vstd::string::StringSliceAdditionalSpecFns;
use crate::config::AcrCloudConfig;
use crate::identifiers::{by_confidence, sort_by_confidence};
use crate::models::{cap_at_one, capped_at_one, SongMatch};
use crate::text::decimal;

verus! {

/// The HMAC-SHA1 tag of `message` under `key` (RFC 2104 over SHA-1).
pub uninterp spec fn hmac_sha1(key: Seq<u8>, message: Seq<u8>) -> Seq<u8>;

/// A Base64 digit of the standard alphabet: `A`-`Z`, `a`-`z`, `0`-`9`, `+`, `/`.
pub open spec fn base64_digit(v: int) -> char {
    if v < 26 {
        (65 + v) as char
    } else if v < 52 {
        (71 + v) as char
    } else if v < 62 {
        (v - 4) as char
    } else if v == 62 {
        '+'
    } else {
        '/'
    }
}

/// The standard Base64 encoding (RFC 4648, with padding): every three bytes
/// as four digits of six bits each, high bits first; a last group of one or
/// two bytes padded with `=`.
pub open spec fn base64_standard(d: Seq<u8>) -> Seq<char>
    decreases d.len(),
{
    let a = d[0] as int;
    let b = d[1] as int;
    let c = d[2] as int;
    if d.len() == 0 {
        Seq::empty()
    } else if d.len() == 1 {
        seq![base64_digit(a / 4), base64_digit((a % 4) * 16), '=', '=']
    } else if d.len() == 2 {
        seq![
            base64_digit(a / 4),
            base64_digit((a % 4) * 16 + b / 16),
            base64_digit((b % 16) * 4),
            '=',
        ]
    } else {
        seq![
            base64_digit(a / 4),
            base64_digit((a % 4) * 16 + b / 16),
            base64_digit((b % 16) * 4 + c / 64),
            base64_digit(c % 64),
        ] + base64_standard(d.skip(3))
    }
}

/// `Hmac::<Sha1>::new_from_slice`, `update`, `finalize`: the tag, named
/// `hmac_sha1`. HMAC accepts keys of any length (`new_from_slice` of
/// `HmacCore` never fails), so a tag always comes back.
#[verifier::external_body]
fn hmac_sha1_tag(key: &[u8], message: &[u8]) -> (tag: Option<Vec<u8>>)
    ensures
        tag is Some,
        tag matches Some(t) ==> t@ == hmac_sha1(key@, message@),
{
    let mut mac = match <hmac::Hmac<sha1::Sha1> as hmac::Mac>::new_from_slice(key) {
        Ok(m) => m,
        Err(_) => return None,
    };
    hmac::Mac::update(&mut mac, message);
    Some(hmac::Mac::finalize(mac).into_bytes().to_vec())
}

/// `base64::engine::general_purpose::STANDARD.encode`: the standard Base64
/// encoding with padding.
#[verifier::external_body]
fn base64_encode(data: &[u8]) -> (s: String)
    ensures
        s@ == base64_standard(data@),
{
    base64::engine::general_purpose::STANDARD.encode(data)
}

/// Identifies audio with ACRCloud (the HTTP client lives with the caller).
pub struct AcrCloudIdentifier {
    pub config: AcrCloudConfig,
}

/// The text that is signed: method, path, access key and timestamp, one per line.
pub open spec fn string_to_sign(access_key: Seq<char>, timestamp: Seq<char>) -> Seq<char> {
    "POST\n/v1/identify\n"@ + access_key + seq!['\n'] + timestamp
}

/// The signature of a request: the Base64 of the HMAC-SHA1 of the text to
/// sign (as UTF-8) under the access secret (as UTF-8).
pub open spec fn signature_of(config: AcrCloudConfig, timestamp: Seq<char>) -> Seq<char> {
    base64_standard(
        hmac_sha1(
            vstd::utf8::encode_utf8(config.access_secret@),
            vstd::utf8::encode_utf8(string_to_sign(config.access_key@, timestamp)),
        ),
    )
}

/// An item of a metadata list of an answer, as read from the JSON: title,
/// first artist's name, album name, the bits of its score as `f32` (0 when
/// missing) and of its duration in seconds as `f32`.
pub struct AcrItem {
    pub title: Option<String>,
    pub artist: Option<String>,
    pub album: Option<String>,
    pub score_bits: u32,
    pub duration_bits: Option<u32>,
}

/// A member of the answer's `metadata` object: its name and, when it is a
/// list, its items.
pub struct AcrCategory {
    pub kind: String,
    pub items: Option<Vec<AcrItem>>,
}

/// The song made of an item of the list named `kind`.
pub open spec fn is_item_match(m: SongMatch, item: AcrItem, kind: Seq<char>) -> bool {
    &&& m.rank is None
    &&& m.title@ == match item.title {
        Some(t) => t@,
        None => "Unknown"@,
    }
    &&& m.artist@ == match item.artist {
        Some(a) => a@,
        None => "Unknown"@,
    }
    &&& m.album == item.album
    &&& m.confidence_bits == capped_at_one(item.score_bits)
    &&& m.provider@ == "acrcloud/"@ + kind
    &&& m.artwork_url is None
    &&& m.preview_url is None
    &&& m.isrc is None
    &&& m.duration_bits == item.duration_bits
}

/// The items considered of a category: the first two of its list.
pub open spec fn considered_items(c: AcrCategory) -> Seq<AcrItem> {
    match c.items {
        Some(v) => if v@.len() <= 2 {
            v@
        } else {
            v@.take(2)
        },
        None => Seq::empty(),
    }
}

/// The items considered of all categories, in order, each with its category's name.
pub open spec fn considered(cats: Seq<AcrCategory>) -> Seq<(AcrItem, Seq<char>)>
    decreases cats.len(),
{
    if cats.len() == 0 {
        Seq::empty()
    } else {
        let last = cats.last();
        considered(cats.drop_last()) + considered_items(last).map_values(
            |i: AcrItem| (i, last.kind@),
        )
    }
}

fn take_two(items: Option<Vec<AcrItem>>) -> (v: Vec<AcrItem>)
    ensures
        v@ == match items {
            Some(r) => if r@.len() <= 2 {
                r@
            } else {
                r@.take(2)
            },
            None => Seq::empty(),
        },
{
    match items {
        Some(r) => {
            let mut r = r;
            if r.len() > 2 {
                r.truncate(2);
            }
            r
        },
        None => Vec::new(),
    }
}

impl AcrCloudIdentifier {
    /// The identifier for the given settings.
    pub fn new(config: AcrCloudConfig) -> (i: Self)
        ensures
            i.config == config,
    {
        AcrCloudIdentifier { config }
    }

    /// The provider's name.
    pub fn name(&self) -> (n: &'static str)
        ensures
            n@ == "acrcloud"@,
    {
        "acrcloud"
    }

    /// ACRCloud is used when host, access key and secret are all set.
    pub fn enabled(&self) -> (b: bool)
        ensures
            b == (self.config.access_key@.len() > 0 && self.config.access_secret@.len() > 0
                && self.config.host@.len() > 0),
    {
        !self.config.access_key.as_str().is_empty() && !self.config.access_secret.as_str().is_empty()
            && !self.config.host.as_str().is_empty()
    }

    /// The signature of a request made at `timestamp`.
    pub fn build_signature(&self, timestamp: &str) -> (s: String)
        ensures
            s@ == signature_of(self.config, timestamp@),
    {
        let mut text = String::from_str("POST\n/v1/identify\n");
        text.append(self.config.access_key.as_str());
        crate::text::push_char(&mut text, '\n');
        text.append(timestamp);
        assert(text@ =~= string_to_sign(self.config.access_key@, timestamp@));
        let key = self.config.access_secret.as_str().as_bytes();
        let message = text.as_str().as_bytes();
        match hmac_sha1_tag(key, message) {
            Some(tag) => base64_encode(tag.as_slice()),
            None => String::new(),
        }
    }

    /// The endpoint requests are posted to.
    pub fn identify_url(&self) -> (u: String)
        ensures
            u@ == "https://"@ + self.config.host@ + "/v1/identify"@,
    {
        let mut u = String::from_str("https://");
        u.append(self.config.host.as_str());
        u.append("/v1/identify");
        u
    }

    /// The text fields of a request: access key, sample size in bytes,
    /// timestamp, signature, data type and signature version.
    pub fn form_fields(&self, sample_bytes: u64, timestamp: &str, signature: &str) -> (v: Vec<
        (String, String),
    >)
        ensures
            v@.map_values(|p: (String, String)| (p.0@, p.1@)) == seq![
                ("access_key"@, self.config.access_key@),
                ("sample_bytes"@, decimal(sample_bytes as nat)),
                ("timestamp"@, timestamp@),
                ("signature"@, signature@),
                ("data_type"@, "audio"@),
                ("signature_version"@, "1"@),
            ],
    {
        let v = vec![
            (String::from_str("access_key"), self.config.access_key.clone()),
            (String::from_str("sample_bytes"), crate::text::decimal_string(sample_bytes)),
            (String::from_str("timestamp"), String::from_str(timestamp)),
            (String::from_str("signature"), String::from_str(signature)),
            (String::from_str("data_type"), String::from_str("audio")),
            (String::from_str("signature_version"), String::from_str("1")),
        ];
        assert(v@.map_values(|p: (String, String)| (p.0@, p.1@)) =~= seq![
            ("access_key"@, self.config.access_key@),
            ("sample_bytes"@, decimal(sample_bytes as nat)),
            ("timestamp"@, timestamp@),
            ("signature"@, signature@),
            ("data_type"@, "audio"@),
            ("signature_version"@, "1"@),
        ]);
        v
    }

    /// The songs of an answer: the first two items of each list in its
    /// metadata, attributed to "acrcloud/<list name>", their scores capped
    /// at 1, sorted by decreasing confidence (stably).
    pub fn matches(metadata: Vec<AcrCategory>) -> (v: Vec<SongMatch>)
        ensures
            exists|found: Seq<SongMatch>|
                {
                    &&& found.len() == considered(metadata@).len()
                    &&& forall|k: int|
                        0 <= k < found.len() ==> is_item_match(
                            #[trigger] found[k],
                            considered(metadata@)[k].0,
                            considered(metadata@)[k].1,
                        )
                    &&& v@ == by_confidence(found)
                },
    {
        let ghost cats = metadata@;
        let mut found: Vec<SongMatch> = Vec::new();
        for cat in it: metadata.into_iter()
            invariant
                it.seq() == cats,
                found@.len() == considered(cats.take(it.index() as int)).len(),
                forall|k: int|
                    0 <= k < found@.len() ==> is_item_match(
                        #[trigger] found@[k],
                        considered(cats.take(it.index() as int))[k].0,
                        considered(cats.take(it.index() as int))[k].1,
                    ),
        {
            let ghost before = cats.take(it.index() as int);
            let ghost c = cat;
            let ghost prev = found@;
            assert(forall|k: int|
                0 <= k < prev.len() ==> is_item_match(
                    #[trigger] prev[k],
                    considered(before)[k].0,
                    considered(before)[k].1,
                ));
            proof {
                assert(cats.take(it.index() + 1).drop_last() =~= before);
                assert(cats.take(it.index() + 1).last() == c);
            }
            let items = take_two(cat.items);
            let ghost iv = items@;
            let kind = cat.kind;
            for item in it2: items.into_iter()
                invariant
                    it2.seq() == iv,
                    iv == considered_items(c),
                    kind == c.kind,
                    found@.len() == prev.len() + it2.index(),
                    forall|k: int| 0 <= k < prev.len() ==> found@[k] == prev[k],
                    forall|k: int|
                        0 <= k < it2.index() ==> is_item_match(
                            #[trigger] found@[prev.len() + k],
                            iv[k],
                            kind@,
                        ),
            {
                let ghost one = item;
                let mut provider = String::from_str("acrcloud/");
                provider.append(kind.as_str());
                let m = SongMatch {
                    rank: None,
                    title: match item.title {
                        Some(t) => t,
                        None => String::from_str("Unknown"),
                    },
                    artist: match item.artist {
                        Some(a) => a,
                        None => String::from_str("Unknown"),
                    },
                    album: item.album,
                    confidence_bits: cap_at_one(item.score_bits),
                    provider,
                    artwork_url: None,
                    preview_url: None,
                    isrc: None,
                    duration_bits: item.duration_bits,
                };
                assert(is_item_match(m, one, kind@));
                found.push(m);
                assert(found@[prev.len() + it2.index()] == m);
            }
            proof {
                let now = considered(cats.take(it.index() + 1));
                assert(now == considered(before) + considered_items(c).map_values(
                    |q: AcrItem| (q, c.kind@),
                ));
                assert(found@.len() == prev.len() + iv.len());
                assert(now.len() == prev.len() + iv.len());
                assert forall|k: int| 0 <= k < found@.len() implies is_item_match(
                    #[trigger] found@[k],
                    now[k].0,
                    now[k].1,
                ) by {
                    if k >= prev.len() {
                        let j = k - prev.len();
                        assert(is_item_match(found@[prev.len() + j], iv[j], kind@));
                        assert(now[k] == (iv[j], c.kind@));
                    } else {
                        assert(now[k] == considered(before)[k]);
                        assert(found@[k] == prev[k]);
                    }
                }
            }
        }
        proof {
            assert(cats.take(cats.len() as int) =~= cats);
        }
        sort_by_confidence(found)
    }
}

} // verus!
