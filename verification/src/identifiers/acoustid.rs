//! AcoustID: lookup of a Chromaprint fingerprint.

use vstd::prelude::*;
use crate::config::AcoustIdConfig;
use crate::download::texts;
use crate::identifiers::{by_confidence, sort_by_confidence};
use crate::models::{cap_at_one, capped_at_one, SongMatch};

verus! {

/// Looks recordings up by fingerprint (the HTTP client lives with the caller).
pub struct AcoustIdIdentifier {
    pub config: AcoustIdConfig,
}

/// A recording of a lookup result, as read from the JSON: its title, the
/// name of its first artist, the title of its first release group, and the
/// bits of its duration as `f32`.
pub struct AcoustIdRecording {
    pub title: Option<String>,
    pub artist: Option<String>,
    pub album: Option<String>,
    pub duration_bits: Option<u32>,
}

/// A lookup result: the bits of its score as `f32` (0 when missing) and its
/// recordings, if it has a list of them.
pub struct AcoustIdResult {
    pub score_bits: u32,
    pub recordings: Option<Vec<AcoustIdRecording>>,
}

/// The song made of a recording found with the given score.
pub open spec fn is_recording_match(m: SongMatch, r: AcoustIdRecording, score_bits: u32) -> bool {
    &&& m.rank is None
    &&& m.title@ == match r.title {
        Some(t) => t@,
        None => "Unknown"@,
    }
    &&& m.artist@ == match r.artist {
        Some(a) => a@,
        None => "Unknown"@,
    }
    &&& m.album == r.album
    &&& m.confidence_bits == capped_at_one(score_bits)
    &&& m.provider@ == "acoustid"@
    &&& m.artwork_url is None
    &&& m.preview_url is None
    &&& m.isrc is None
    &&& m.duration_bits == r.duration_bits
}

/// The recordings considered of a result: its first two.
pub open spec fn considered_recordings(r: AcoustIdResult) -> Seq<AcoustIdRecording> {
    match r.recordings {
        Some(v) => if v@.len() <= 2 {
            v@
        } else {
            v@.take(2)
        },
        None => Seq::empty(),
    }
}

/// The recordings considered of the first four results, in order, each
/// with the score of its result.
pub open spec fn considered(results: Seq<AcoustIdResult>) -> Seq<(AcoustIdRecording, u32)>
    decreases results.len(),
{
    if results.len() == 0 {
        Seq::empty()
    } else {
        let last = results.last();
        let firsts = considered(results.drop_last());
        firsts + considered_recordings(last).map_values(
            |r: AcoustIdRecording| (r, last.score_bits),
        )
    }
}

/// The first four results.
pub open spec fn first_results(results: Seq<AcoustIdResult>) -> Seq<AcoustIdResult> {
    if results.len() <= 4 {
        results
    } else {
        results.take(4)
    }
}

fn take_two(recordings: Option<Vec<AcoustIdRecording>>) -> (v: Vec<AcoustIdRecording>)
    ensures
        v@ == match recordings {
            Some(r) => if r@.len() <= 2 {
                r@
            } else {
                r@.take(2)
            },
            None => Seq::empty(),
        },
{
    match recordings {
        Some(r) => {
            let mut r = r;
            if r.len() > 2 {
                r.truncate(2);
            }
            r
        },
        None => Vec::new(),
    }
}

impl AcoustIdIdentifier {
    /// The identifier for the given settings.
    pub fn new(config: AcoustIdConfig) -> (i: Self)
        ensures
            i.config == config,
    {
        AcoustIdIdentifier { config }
    }

    /// The provider's name.
    pub fn name(&self) -> (n: &'static str)
        ensures
            n@ == "acoustid"@,
    {
        "acoustid"
    }

    /// AcoustID is used when an API key is set.
    pub fn enabled(&self) -> (b: bool)
        ensures
            b == (self.config.api_key@.len() > 0),
    {
        !self.config.api_key.as_str().is_empty()
    }

    /// The query of a lookup: the client key, the fingerprint, the metadata
    /// wanted, and JSON as the format.
    pub fn lookup_params(&self, fingerprint: &str) -> (v: Vec<(String, String)>)
        ensures
            v@.map_values(|p: (String, String)| (p.0@, p.1@)) == seq![
                ("client"@, self.config.api_key@),
                ("fingerprint"@, fingerprint@),
                ("meta"@, "recordings sources releasegroups releases tracks compress"@),
                ("format"@, "json"@),
            ],
    {
        let v = vec![
            (String::from_str("client"), self.config.api_key.clone()),
            (String::from_str("fingerprint"), String::from_str(fingerprint)),
            (
                String::from_str("meta"),
                String::from_str("recordings sources releasegroups releases tracks compress"),
            ),
            (String::from_str("format"), String::from_str("json")),
        ];
        assert(v@.map_values(|p: (String, String)| (p.0@, p.1@)) =~= seq![
            ("client"@, self.config.api_key@),
            ("fingerprint"@, fingerprint@),
            ("meta"@, "recordings sources releasegroups releases tracks compress"@),
            ("format"@, "json"@),
        ]);
        v
    }

    /// The songs of the first two recordings of a result, with the
    /// result's score capped at 1 as their confidence.
    pub fn extract_recording_matches(recordings: Option<Vec<AcoustIdRecording>>, score_bits: u32) -> (v:
        Vec<SongMatch>)
        ensures
            v@.len() == match recordings {
                Some(r) => if r@.len() <= 2 {
                    r@.len()
                } else {
                    2
                },
                None => 0,
            },
            forall|i: int|
                0 <= i < v@.len() ==> is_recording_match(
                    #[trigger] v@[i],
                    recordings->0@[i],
                    score_bits,
                ),
    {
        let recs = take_two(recordings);
        let ghost rv = recs@;
        let confidence_bits = cap_at_one(score_bits);
        let mut out: Vec<SongMatch> = Vec::new();
        for r in it: recs.into_iter()
            invariant
                it.seq() == rv,
                out@.len() == it.index(),
                confidence_bits == capped_at_one(score_bits),
                forall|i: int| 0 <= i < out@.len() ==> is_recording_match(
                    #[trigger] out@[i],
                    rv[i],
                    score_bits,
                ),
        {
            let ghost rec = r;
            let m = SongMatch {
                rank: None,
                title: match r.title {
                    Some(t) => t,
                    None => String::from_str("Unknown"),
                },
                artist: match r.artist {
                    Some(a) => a,
                    None => String::from_str("Unknown"),
                },
                album: r.album,
                confidence_bits,
                provider: String::from_str("acoustid"),
                artwork_url: None,
                preview_url: None,
                isrc: None,
                duration_bits: r.duration_bits,
            };
            assert(is_recording_match(m, rec, score_bits));
            out.push(m);
        }
        out
    }

    /// The songs of a lookup: those of the first two recordings of each of
    /// the first four results, sorted by decreasing confidence (stably).
    pub fn matches(results: Vec<AcoustIdResult>) -> (v: Vec<SongMatch>)
        ensures
            exists|found: Seq<SongMatch>|
                {
                    &&& found.len() == considered(first_results(results@)).len()
                    &&& forall|k: int|
                        0 <= k < found.len() ==> is_recording_match(
                            #[trigger] found[k],
                            considered(first_results(results@))[k].0,
                            considered(first_results(results@))[k].1,
                        )
                    &&& v@ == by_confidence(found)
                },
    {
        let ghost given = results@;
        let mut results = results;
        if results.len() > 4 {
            results.truncate(4);
        }
        let ghost rs = results@;
        assert(rs =~= first_results(given));
        let mut found: Vec<SongMatch> = Vec::new();
        for r in it: results.into_iter()
            invariant
                it.seq() == rs,
                found@.len() == considered(rs.take(it.index() as int)).len(),
                forall|k: int|
                    0 <= k < found@.len() ==> is_recording_match(
                        #[trigger] found@[k],
                        considered(rs.take(it.index() as int))[k].0,
                        considered(rs.take(it.index() as int))[k].1,
                    ),
        {
            let ghost before = rs.take(it.index() as int);
            let ghost res = r;
            let ghost prev = found@;
            let score_bits = r.score_bits;
            let ms = Self::extract_recording_matches(r.recordings, score_bits);
            proof {
                assert(rs.take(it.index() + 1).drop_last() =~= before);
                assert(rs.take(it.index() + 1).last() == res);
            }
            let mut ms = ms;
            found.append(&mut ms);
            proof {
                let now = considered(rs.take(it.index() + 1));
                assert(now == considered(before) + considered_recordings(res).map_values(
                    |q: AcoustIdRecording| (q, res.score_bits),
                ));
                assert forall|k: int| 0 <= k < found@.len() implies is_recording_match(
                    #[trigger] found@[k],
                    now[k].0,
                    now[k].1,
                ) by {
                    if k < prev.len() {
                        assert(found@[k] == prev[k]);
                    }
                }
            }
        }
        proof {
            assert(rs.take(rs.len() as int) =~= rs);
        }
        sort_by_confidence(found)
    }
}

} // verus!
