//! Shazam, queried through a helper script.

use vstd::prelude::*;
use crate::config::ShazamConfig;
use crate::download::texts;
use crate::models::SongMatch;
use crate::text::opt_seq;

verus! {

/// Runs the Shazam recognition script with Python.
pub struct ShazamIdentifier {
    pub python_path: String,
    pub script_path: String,
}

/// Bits of `0.8f32`, the confidence of a Shazam answer without a score.
pub const SHAZAM_DEFAULT_SCORE_BITS: u32 = 0x3f4c_cccd;

/// What the script answered, as read from its JSON.
pub struct ShazamReply {
    /// The answer has an `error` member.
    pub has_error: bool,
    pub title: Option<String>,
    pub artist: Option<String>,
    pub album: Option<String>,
    pub artwork_url: Option<String>,
    pub preview_url: Option<String>,
    pub isrc: Option<String>,
    /// Bits of `score as f32`, when `score` is a number.
    pub score_bits: Option<u32>,
}

/// The song of a Shazam answer that names a title.
pub open spec fn is_shazam_match(m: SongMatch, r: ShazamReply) -> bool {
    &&& m.rank is None
    &&& m.title == r.title->0
    &&& m.artist@ == match r.artist {
        Some(a) => a@,
        None => "Unknown"@,
    }
    &&& m.album == r.album
    &&& m.confidence_bits == match r.score_bits {
        Some(b) => b,
        None => SHAZAM_DEFAULT_SCORE_BITS,
    }
    &&& m.provider@ == "shazam"@
    &&& m.artwork_url == r.artwork_url
    &&& m.preview_url == r.preview_url
    &&& m.isrc == r.isrc
    &&& m.duration_bits is None
}

impl ShazamIdentifier {
    /// The identifier, with `python3` and the bundled script.
    pub fn new(_config: ShazamConfig) -> (s: Self)
        ensures
            s.python_path@ == "python3"@,
            s.script_path@ == "/app/scripts/shazam_recognize.py"@,
    {
        ShazamIdentifier {
            python_path: String::from_str("python3"),
            script_path: String::from_str("/app/scripts/shazam_recognize.py"),
        }
    }

    /// The provider's name.
    pub fn name(&self) -> (n: &'static str)
        ensures
            n@ == "shazam"@,
    {
        "shazam"
    }

    /// Shazam needs no key and is always usable.
    pub fn enabled(&self) -> (b: bool)
        ensures
            b,
    {
        true
    }

    /// The arguments Python is run with: the script and the audio file.
    pub fn script_args(&self, wav_path: &str) -> (v: Vec<String>)
        ensures
            texts(v@) == seq![self.script_path@, wav_path@],
    {
        let v = vec![self.script_path.clone(), String::from_str(wav_path)];
        assert(texts(v@) =~= seq![self.script_path@, wav_path@]);
        v
    }

    /// The songs of the script's answer: none if it reports an error or
    /// names no title; else the one song it names.
    pub fn matches(reply: ShazamReply) -> (v: Vec<SongMatch>)
        ensures
            (reply.has_error || reply.title is None) ==> v@.len() == 0,
            !(reply.has_error || reply.title is None) ==> v@.len() == 1 && is_shazam_match(
                v@[0],
                reply,
            ),
    {
        if reply.has_error {
            return Vec::new();
        }
        let ghost r = reply;
        let title = match reply.title {
            Some(t) => t,
            None => return Vec::new(),
        };
        let artist = match reply.artist {
            Some(a) => a,
            None => String::from_str("Unknown"),
        };
        let confidence_bits = match reply.score_bits {
            Some(b) => b,
            None => SHAZAM_DEFAULT_SCORE_BITS,
        };
        let m = SongMatch {
            rank: None,
            title,
            artist,
            album: reply.album,
            confidence_bits,
            provider: String::from_str("shazam"),
            artwork_url: reply.artwork_url,
            preview_url: reply.preview_url,
            isrc: reply.isrc,
            duration_bits: None,
        };
        assert(is_shazam_match(m, r));
        vec![m]
    }
}

} // verus!
