//! Aggregation of the answers of several identification providers.

pub mod acoustid;
pub mod acrcloud;
pub mod registry;
pub mod shazam;

use vstd::prelude::*;
use crate::models::{float_order, f32_is_nan, f32_order, SongMatch};
use crate::text::{lowercase, to_lowercase, trim, trimmed};

verus! {

// ---------------------------------------------------------------------
// Specification of the aggregation
// ---------------------------------------------------------------------

/// `s` attributed to provider `p`.
pub open spec fn with_provider(s: SongMatch, p: String) -> SongMatch {
    SongMatch {
        rank: s.rank,
        title: s.title,
        artist: s.artist,
        album: s.album,
        confidence_bits: s.confidence_bits,
        provider: p,
        artwork_url: s.artwork_url,
        preview_url: s.preview_url,
        isrc: s.isrc,
        duration_bits: s.duration_bits,
    }
}

/// `s` with rank `r`.
pub open spec fn with_rank(s: SongMatch, r: Option<usize>) -> SongMatch {
    SongMatch {
        rank: r,
        title: s.title,
        artist: s.artist,
        album: s.album,
        confidence_bits: s.confidence_bits,
        provider: s.provider,
        artwork_url: s.artwork_url,
        preview_url: s.preview_url,
        isrc: s.isrc,
        duration_bits: s.duration_bits,
    }
}

/// The songs of one provider's answer, each attributed to that provider.
pub open spec fn attributed(p: String, songs: Seq<SongMatch>) -> Seq<SongMatch> {
    songs.map_values(|s: SongMatch| with_provider(s, p))
}

/// All songs of all answers, in order, each attributed to its provider.
pub open spec fn combined(results: Seq<(String, Vec<SongMatch>)>) -> Seq<SongMatch>
    decreases results.len(),
{
    if results.len() == 0 {
        Seq::empty()
    } else {
        combined(results.drop_last()) + attributed(results.last().0, results.last().1@)
    }
}

/// The confidence of a song, on the real line.
pub open spec fn confidence(s: SongMatch) -> int {
    float_order(s.confidence_bits)
}

/// `x` placed after every element of `sorted` whose confidence is at least
/// its own, and before the rest.
pub open spec fn inserted(sorted: Seq<SongMatch>, x: SongMatch) -> Seq<SongMatch>
    decreases sorted.len(),
{
    if sorted.len() == 0 {
        seq![x]
    } else if confidence(sorted.last()) >= confidence(x) {
        sorted.push(x)
    } else {
        inserted(sorted.drop_last(), x).push(sorted.last())
    }
}

/// `s` in order of decreasing confidence; songs of equal confidence keep
/// their relative order (a stable sort).
pub open spec fn by_confidence(s: Seq<SongMatch>) -> Seq<SongMatch>
    decreases s.len(),
{
    if s.len() == 0 {
        s
    } else {
        inserted(by_confidence(s.drop_last()), s.last())
    }
}

/// The identity of a song for de-duplication: lower-cased, trimmed artist,
/// `" - "`, lower-cased, trimmed title.
pub open spec fn song_key(s: SongMatch) -> Seq<char> {
    trimmed(lowercase(s.artist@)) + seq![' ', '-', ' '] + trimmed(lowercase(s.title@))
}

/// The keys of a sequence of songs.
pub open spec fn keys(s: Seq<SongMatch>) -> Seq<Seq<char>> {
    s.map_values(|x: SongMatch| song_key(x))
}

/// The first song of each key, in order.
pub open spec fn first_per_key(s: Seq<SongMatch>) -> Seq<SongMatch>
    decreases s.len(),
{
    if s.len() == 0 {
        s
    } else if keys(s.drop_last()).contains(song_key(s.last())) {
        first_per_key(s.drop_last())
    } else {
        first_per_key(s.drop_last()).push(s.last())
    }
}

/// `s` with ranks 1, 2, ... in order.
pub open spec fn ranked(s: Seq<SongMatch>) -> Seq<SongMatch> {
    Seq::new(s.len(), |i: int| with_rank(s[i], Some((i + 1) as usize)))
}

/// The first `n` elements of `s`, or all of them if there are fewer.
pub open spec fn at_most<A>(s: Seq<A>, n: nat) -> Seq<A> {
    if s.len() <= n {
        s
    } else {
        s.take(n as int)
    }
}

/// How many songs the aggregation keeps.
pub const MAX_RESULTS: usize = 4;

/// The aggregated answer: all songs attributed to their providers, sorted
/// by decreasing confidence, the first of each key kept, ranked, top four.
pub open spec fn merged(results: Seq<(String, Vec<SongMatch>)>) -> Seq<SongMatch> {
    at_most(ranked(first_per_key(by_confidence(combined(results)))), MAX_RESULTS as nat)
}

/// Sorting compares confidences; a NaN among two or more songs makes the
/// comparison fail.
pub open spec fn comparable(s: Seq<SongMatch>) -> bool {
    s.len() >= 2 ==> forall|i: int| 0 <= i < s.len() ==> !f32_is_nan(#[trigger] s[i].confidence_bits)
}

// ---------------------------------------------------------------------
// Proofs used by the implementation
// ---------------------------------------------------------------------

proof fn lemma_inserted_at(s: Seq<SongMatch>, x: SongMatch, pos: int)
    requires
        0 <= pos <= s.len(),
        pos > 0 ==> confidence(s[pos - 1]) >= confidence(x),
        forall|k: int| pos <= k < s.len() ==> confidence(#[trigger] s[k]) < confidence(x),
    ensures
        inserted(s, x) == s.insert(pos, x),
    decreases s.len(),
{
    if s.len() == 0 {
        assert(s.insert(pos, x) =~= seq![x]);
    } else if pos == s.len() {
        assert(s.insert(pos, x) =~= s.push(x));
    } else {
        assert(confidence(s[s.len() - 1]) < confidence(x));
        lemma_inserted_at(s.drop_last(), x, pos);
        assert(s.drop_last().insert(pos, x).push(s.last()) =~= s.insert(pos, x));
    }
}

proof fn lemma_push_contains<A>(s: Seq<A>, x: A, k: A)
    ensures
        s.push(x).contains(k) <==> (s.contains(k) || x == k),
{
    if s.push(x).contains(k) {
        let i = choose|i: int| 0 <= i < s.push(x).len() && s.push(x)[i] == k;
        if i < s.len() {
            assert(s[i] == k);
        }
    }
    if s.contains(k) {
        let i = choose|i: int| 0 <= i < s.len() && s[i] == k;
        assert(s.push(x)[i] == k);
    }
    if x == k {
        assert(s.push(x)[s.len() as int] == k);
    }
}

proof fn lemma_keys_of_first_per_key(s: Seq<SongMatch>, k: Seq<char>)
    ensures
        keys(first_per_key(s)).contains(k) <==> keys(s).contains(k),
    decreases s.len(),
{
    if s.len() > 0 {
        let p = s.drop_last();
        let x = song_key(s.last());
        lemma_keys_of_first_per_key(p, k);
        assert(keys(s) =~= keys(p).push(x));
        lemma_push_contains(keys(p), x, k);
        if !keys(p).contains(x) {
            assert(keys(first_per_key(s)) =~= keys(first_per_key(p)).push(x));
            lemma_push_contains(keys(first_per_key(p)), x, k);
        } else if k == x {
        }
    }
}

// ---------------------------------------------------------------------
// Implementation
// ---------------------------------------------------------------------

/// The de-duplication key of a song.
pub fn song_key_of(s: &SongMatch) -> (k: String)
    ensures
        k@ == song_key(*s),
{
    let artist = to_lowercase(s.artist.as_str());
    let title = to_lowercase(s.title.as_str());
    let mut k = trim(artist.as_str());
    let t = trim(title.as_str());
    proof {
        reveal_strlit(" - ");
    }
    k.append(" - ");
    k.append(t.as_str());
    k
}

fn contains_key(seen: &Vec<String>, k: &String) -> (b: bool)
    ensures
        b == exists|j: int| 0 <= j < seen@.len() && (#[trigger] seen@[j])@ == k@,
{
    let mut j: usize = 0;
    while j < seen.len()
        invariant
            j <= seen@.len(),
            forall|i: int| 0 <= i < j ==> (#[trigger] seen@[i])@ != k@,
        decreases seen@.len() - j,
    {
        if seen[j] == *k {
            return true;
        }
        j = j + 1;
    }
    false
}

/// Sorts songs by decreasing confidence, keeping the order of songs of
/// equal confidence (insertion sort).
pub fn sort_by_confidence(songs: Vec<SongMatch>) -> (sorted: Vec<SongMatch>)
    ensures
        sorted@ == by_confidence(songs@),
{
    let ghost all = songs@;
    let mut sorted: Vec<SongMatch> = Vec::new();
    for s in it: songs.into_iter()
        invariant
            it.seq() == all,
            sorted@ == by_confidence(all.take(it.index() as int)),
    {
        let c = f32_order(s.confidence_bits);
        let mut pos = sorted.len();
        while pos > 0 && f32_order(sorted[pos - 1].confidence_bits) < c
            invariant
                pos <= sorted@.len(),
                c == confidence(s),
                forall|k: int| pos <= k < sorted@.len() ==> confidence(#[trigger] sorted@[k])
                    < confidence(s),
            decreases pos,
        {
            pos = pos - 1;
        }
        proof {
            lemma_inserted_at(sorted@, s, pos as int);
            assert(all.take(it.index() + 1).drop_last() =~= all.take(it.index() as int));
        }
        sorted.insert(pos, s);
    }
    proof {
        assert(all.take(all.len() as int) =~= all);
    }
    sorted
}

/// Merges the answers of several providers, drops duplicates and ranks.
///
/// Each song is attributed to the provider it came with; the songs are
/// sorted by decreasing confidence (stably); of the songs with the same
/// artist and title (compared lower-cased and trimmed) the first is kept;
/// the survivors are ranked from 1 and the first four are returned.
pub fn merge_results(results: Vec<(String, Vec<SongMatch>)>) -> (out: Vec<SongMatch>)
    requires
        comparable(combined(results@)),
    ensures
        out@ == merged(results@),
{
    let ghost all = results@;
    // Attribute every song to its provider.
    let mut flat: Vec<SongMatch> = Vec::new();
    for pair in it: results.into_iter()
        invariant
            it.seq() == all,
            flat@ == combined(all.take(it.index() as int)),
    {
        let ghost done = all.take(it.index() as int);
        let (provider, songs) = pair;
        let ghost songs_view = songs@;
        for s in it2: songs.into_iter()
            invariant
                it2.seq() == songs_view,
                flat@ == combined(done) + attributed(provider, songs_view.take(
                    it2.index() as int,
                )),
        {
            let mut s = s;
            s.provider = provider.clone();
            proof {
                assert(attributed(provider, songs_view.take(it2.index() + 1)) =~= attributed(
                    provider,
                    songs_view.take(it2.index() as int),
                ).push(s));
            }
            flat.push(s);
        }
        proof {
            assert(songs_view.take(songs_view.len() as int) =~= songs_view);
            assert(all.take(it.index() + 1).drop_last() =~= done);
        }
    }
    proof {
        assert(all.take(all.len() as int) =~= all);
    }
    // Stable sort by decreasing confidence.
    let sorted = sort_by_confidence(flat);
    // Keep the first song of each key.
    let ghost sorted_view = sorted@;
    let mut seen: Vec<String> = Vec::new();
    let mut unique: Vec<SongMatch> = Vec::new();
    for s in it: sorted.into_iter()
        invariant
            it.seq() == sorted_view,
            unique@ == first_per_key(sorted_view.take(it.index() as int)),
            seen@.len() == unique@.len(),
            forall|j: int| 0 <= j < seen@.len() ==> (#[trigger] seen@[j])@ == song_key(
                unique@[j],
            ),
    {
        let ghost prefix = sorted_view.take(it.index() as int);
        let k = song_key_of(&s);
        let dup = contains_key(&seen, &k);
        proof {
            assert(sorted_view.take(it.index() + 1).drop_last() =~= prefix);
            lemma_keys_of_first_per_key(prefix, k@);
            if dup {
                let j = choose|j: int| 0 <= j < seen@.len() && (#[trigger] seen@[j])@ == k@;
                assert(keys(first_per_key(prefix))[j] == k@);
            } else {
                assert forall|j: int| 0 <= j < keys(first_per_key(prefix)).len() implies keys(
                    first_per_key(prefix),
                )[j] != k@ by {
                    assert(seen@[j]@ == song_key(unique@[j]));
                }
            }
        }
        if !dup {
            seen.push(k);
            unique.push(s);
        }
    }
    proof {
        assert(sorted_view.take(sorted_view.len() as int) =~= sorted_view);
    }
    // Rank, keeping the first four.
    let ghost unique_view = unique@;
    let mut out: Vec<SongMatch> = Vec::new();
    for s in it: unique.into_iter()
        invariant
            it.seq() == unique_view,
            out@.len() <= MAX_RESULTS,
            out@.len() <= it.index(),
            out@.len() == it.index() || out@.len() == MAX_RESULTS,
            out@ =~= ranked(unique_view).take(out@.len() as int),
    {
        if out.len() < MAX_RESULTS {
            let mut s = s;
            s.rank = Some(out.len() + 1);
            out.push(s);
        }
    }
    proof {
        if unique_view.len() <= MAX_RESULTS {
            assert(out@.len() == unique_view.len());
            assert(ranked(unique_view).take(out@.len() as int) =~= ranked(unique_view));
        }
        assert(out@ =~= at_most(ranked(unique_view), MAX_RESULTS as nat));
    }
    out
}

// ---------------------------------------------------------------------
// Laws of the aggregation
// ---------------------------------------------------------------------

/// Confidences never increase along `s`.
pub open spec fn descending(s: Seq<SongMatch>) -> bool {
    forall|i: int, j: int| 0 <= i < j < s.len() ==> confidence(s[i]) >= confidence(s[j])
}

/// No two songs of `s` share a key.
pub open spec fn distinct_keys(s: Seq<SongMatch>) -> bool {
    forall|i: int, j: int| 0 <= i < j < s.len() ==> song_key(s[i]) != song_key(s[j])
}

proof fn lemma_inserted_multiset(s: Seq<SongMatch>, x: SongMatch)
    ensures
        inserted(s, x).to_multiset() =~= s.to_multiset().insert(x),
    decreases s.len(),
{
    broadcast use vstd::seq_lib::to_multiset_build, vstd::multiset::group_multiset_axioms;

    if s.len() == 0 {
        assert(seq![x] =~= s.push(x));
    } else if confidence(s.last()) >= confidence(x) {
    } else {
        let dl = s.drop_last();
        lemma_inserted_multiset(dl, x);
        assert(s =~= dl.push(s.last()));
    }
}

/// Sorting by confidence keeps every song, as often as it occurs.
pub proof fn law_sort_keeps_songs(s: Seq<SongMatch>)
    ensures
        by_confidence(s).to_multiset() =~= s.to_multiset(),
    decreases s.len(),
{
    broadcast use vstd::seq_lib::to_multiset_build, vstd::multiset::group_multiset_axioms;

    if s.len() > 0 {
        law_sort_keeps_songs(s.drop_last());
        lemma_inserted_multiset(by_confidence(s.drop_last()), s.last());
        assert(s =~= s.drop_last().push(s.last()));
    }
}

proof fn lemma_contains_by_multiset(a: Seq<SongMatch>, b: Seq<SongMatch>, x: SongMatch)
    requires
        a.to_multiset() =~= b.to_multiset(),
    ensures
        a.contains(x) <==> b.contains(x),
{
    vstd::seq_lib::to_multiset_contains(a, x);
    vstd::seq_lib::to_multiset_contains(b, x);
}

proof fn lemma_inserted_descending(s: Seq<SongMatch>, x: SongMatch)
    requires
        descending(s),
    ensures
        descending(inserted(s, x)),
    decreases s.len(),
{
    if s.len() > 0 && confidence(s.last()) < confidence(x) {
        let dl = s.drop_last();
        lemma_inserted_descending(dl, x);
        let t = inserted(dl, x);
        lemma_inserted_multiset(dl, x);
        assert forall|i: int| 0 <= i < t.len() implies confidence(#[trigger] t[i]) >= confidence(
            s.last(),
        ) by {
            vstd::seq_lib::to_multiset_contains(t, t[i]);
            vstd::seq_lib::to_multiset_contains(dl, t[i]);
            assert(t.contains(t[i]));
            if t[i] != x {
                assert(dl.to_multiset().count(t[i]) > 0) by {
                    broadcast use vstd::multiset::group_multiset_axioms;
                }
                let k = choose|k: int| 0 <= k < dl.len() && dl[k] == t[i];
                assert(confidence(s[k]) >= confidence(s[s.len() - 1]));
            }
        }
        assert forall|i: int, j: int| 0 <= i < j < t.push(s.last()).len() implies confidence(
            t.push(s.last())[i],
        ) >= confidence(t.push(s.last())[j]) by {
            if j == t.len() {
                assert(confidence(t[i]) >= confidence(s.last()));
            }
        }
    }
}

/// Sorting by confidence puts the songs in order of decreasing confidence.
pub proof fn law_sort_descending(s: Seq<SongMatch>)
    ensures
        descending(by_confidence(s)),
    decreases s.len(),
{
    if s.len() > 0 {
        law_sort_descending(s.drop_last());
        lemma_inserted_descending(by_confidence(s.drop_last()), s.last());
    }
}

proof fn lemma_first_per_key_from(t: Seq<SongMatch>, e: SongMatch)
    ensures
        first_per_key(t).contains(e) ==> t.contains(e),
    decreases t.len(),
{
    broadcast use vstd::seq_lib::lemma_seq_contains_after_push;

    if t.len() > 0 {
        let p = t.drop_last();
        lemma_first_per_key_from(p, e);
        assert(t =~= p.push(t.last()));
    }
}

proof fn lemma_first_per_key_descending(t: Seq<SongMatch>)
    requires
        descending(t),
    ensures
        descending(first_per_key(t)),
    decreases t.len(),
{
    if t.len() > 0 {
        let p = t.drop_last();
        assert(descending(p));
        lemma_first_per_key_descending(p);
        let u = first_per_key(p);
        if !keys(p).contains(song_key(t.last())) {
            assert forall|i: int| 0 <= i < u.len() implies confidence(#[trigger] u[i])
                >= confidence(t.last()) by {
                assert(u.contains(u[i]));
                lemma_first_per_key_from(p, u[i]);
                let k = choose|k: int| 0 <= k < p.len() && p[k] == u[i];
                assert(confidence(t[k]) >= confidence(t[t.len() - 1]));
            }
            assert forall|i: int, j: int| 0 <= i < j < u.push(t.last()).len() implies confidence(
                u.push(t.last())[i],
            ) >= confidence(u.push(t.last())[j]) by {
                if j == u.len() {
                    assert(confidence(u[i]) >= confidence(t.last()));
                }
            }
        }
    }
}

proof fn lemma_first_per_key_distinct(t: Seq<SongMatch>)
    ensures
        distinct_keys(first_per_key(t)),
    decreases t.len(),
{
    if t.len() > 0 {
        let p = t.drop_last();
        lemma_first_per_key_distinct(p);
        let u = first_per_key(p);
        let x = song_key(t.last());
        if !keys(p).contains(x) {
            assert forall|i: int, j: int| 0 <= i < j < u.push(t.last()).len() implies song_key(
                u.push(t.last())[i],
            ) != song_key(u.push(t.last())[j]) by {
                if j == u.len() {
                    lemma_keys_of_first_per_key(p, x);
                    if song_key(u[i]) == x {
                        assert(keys(u)[i] == x);
                    }
                }
            }
        }
    }
}

proof fn lemma_first_per_key_covers(t: Seq<SongMatch>, j: int)
    requires
        descending(t),
        0 <= j < t.len(),
    ensures
        exists|m: int|
            0 <= m < first_per_key(t).len() && song_key(#[trigger] first_per_key(t)[m])
                == song_key(t[j]) && confidence(first_per_key(t)[m]) >= confidence(t[j]),
    decreases t.len(),
{
    let p = t.drop_last();
    let u = first_per_key(p);
    assert(descending(p));
    if j < t.len() - 1 {
        lemma_first_per_key_covers(p, j);
        let m = choose|m: int|
            0 <= m < u.len() && song_key(#[trigger] u[m]) == song_key(p[j]) && confidence(u[m])
                >= confidence(p[j]);
        assert(first_per_key(t)[m] == u[m]);
    } else if keys(p).contains(song_key(t.last())) {
        let i = choose|i: int| 0 <= i < keys(p).len() && keys(p)[i] == song_key(t.last());
        assert(confidence(t[i]) >= confidence(t[j]));
        lemma_first_per_key_covers(p, i);
        let m = choose|m: int|
            0 <= m < u.len() && song_key(#[trigger] u[m]) == song_key(p[i]) && confidence(u[m])
                >= confidence(p[i]);
        assert(first_per_key(t)[m] == u[m]);
    } else {
        assert(first_per_key(t)[u.len() as int] == t.last());
    }
}

/// The aggregation returns at most four songs.
pub proof fn law_merged_at_most_four(results: Seq<(String, Vec<SongMatch>)>)
    ensures
        merged(results).len() <= MAX_RESULTS,
{
}

/// The songs of the aggregation are ranked 1, 2, ... in order.
pub proof fn law_merged_ranks(results: Seq<(String, Vec<SongMatch>)>)
    ensures
        forall|i: int| 0 <= i < merged(results).len() ==> (#[trigger] merged(results)[i]).rank
            == Some((i + 1) as usize),
{
}

/// The songs of the aggregation come in order of decreasing confidence.
pub proof fn law_merged_descending(results: Seq<(String, Vec<SongMatch>)>)
    ensures
        descending(merged(results)),
{
    let s = by_confidence(combined(results));
    law_sort_descending(combined(results));
    lemma_first_per_key_descending(s);
}

/// No two songs of the aggregation have the same artist and title
/// (compared lower-cased and trimmed).
pub proof fn law_merged_no_duplicates(results: Seq<(String, Vec<SongMatch>)>)
    ensures
        distinct_keys(merged(results)),
{
    lemma_first_per_key_distinct(by_confidence(combined(results)));
}

/// Every song of the aggregation is a song of some provider's answer,
/// attributed to that provider, with its rank set.
pub proof fn law_merged_from_answers(results: Seq<(String, Vec<SongMatch>)>)
    ensures
        forall|i: int|
            0 <= i < merged(results).len() ==> exists|j: int|
                0 <= j < combined(results).len() && #[trigger] merged(results)[i] == with_rank(
                    combined(results)[j],
                    Some((i + 1) as usize),
                ),
{
    let c = combined(results);
    let s = by_confidence(c);
    let u = first_per_key(s);
    law_sort_keeps_songs(c);
    assert forall|i: int| 0 <= i < merged(results).len() implies exists|j: int|
        0 <= j < c.len() && #[trigger] merged(results)[i] == with_rank(c[j], Some((i + 1) as usize)) by {
        assert(u.contains(u[i]));
        lemma_first_per_key_from(s, u[i]);
        lemma_contains_by_multiset(s, c, u[i]);
        let j = choose|j: int| 0 <= j < c.len() && c[j] == u[i];
        assert(merged(results)[i] == with_rank(c[j], Some((i + 1) as usize)));
    }
}

/// The aggregation keeps the best songs: every song of every answer either
/// has its artist and title among the results, held by a result at least as
/// confident, or four results were kept and the last of them is at least as
/// confident as that song.
pub proof fn law_merged_keeps_best(results: Seq<(String, Vec<SongMatch>)>)
    ensures
        forall|j: int|
            0 <= j < combined(results).len() ==> (exists|i: int|
                0 <= i < merged(results).len() && song_key(#[trigger] merged(results)[i])
                    == song_key(combined(results)[j]) && confidence(merged(results)[i])
                    >= confidence(combined(results)[j])) || (merged(results).len() == MAX_RESULTS
                && confidence(combined(results)[j]) <= confidence(
                merged(results)[MAX_RESULTS - 1],
            )),
{
    let c = combined(results);
    let s = by_confidence(c);
    let u = first_per_key(s);
    let m = merged(results);
    law_sort_keeps_songs(c);
    law_sort_descending(c);
    lemma_first_per_key_descending(s);
    assert forall|j: int| 0 <= j < c.len() implies (exists|i: int|
        0 <= i < m.len() && song_key(#[trigger] m[i]) == song_key(c[j]) && confidence(m[i])
            >= confidence(c[j])) || (m.len() == MAX_RESULTS && confidence(c[j]) <= confidence(
        m[MAX_RESULTS - 1],
    )) by {
        assert(c.contains(c[j]));
        lemma_contains_by_multiset(s, c, c[j]);
        let k = choose|k: int| 0 <= k < s.len() && s[k] == c[j];
        lemma_first_per_key_covers(s, k);
        let q = choose|q: int|
            0 <= q < u.len() && song_key(#[trigger] u[q]) == song_key(s[k]) && confidence(u[q])
                >= confidence(s[k]);
        if q < MAX_RESULTS {
            assert(m[q] == with_rank(u[q], Some((q + 1) as usize)));
            assert(song_key(m[q]) == song_key(c[j]));
        } else {
            assert(m[MAX_RESULTS - 1] == with_rank(u[MAX_RESULTS - 1], Some(MAX_RESULTS)));
            assert(confidence(u[MAX_RESULTS - 1]) >= confidence(u[q]));
        }
    }
}


/// Two songs agree on everything but their rank and provider.
pub open spec fn same_song(a: SongMatch, b: SongMatch) -> bool {
    &&& a.title == b.title
    &&& a.artist == b.artist
    &&& a.album == b.album
    &&& a.confidence_bits == b.confidence_bits
    &&& a.artwork_url == b.artwork_url
    &&& a.preview_url == b.preview_url
    &&& a.isrc == b.isrc
    &&& a.duration_bits == b.duration_bits
}

proof fn lemma_combined_from_groups(results: Seq<(String, Vec<SongMatch>)>, j: int)
    requires
        0 <= j < combined(results).len(),
    ensures
        exists|k: int, m: int|
            0 <= k < results.len() && 0 <= m < results[k].1@.len() && (#[trigger] combined(
                results,
            )[j]).provider == results[k].0 && same_song(combined(results)[j], results[k].1@[m]),
    decreases results.len(),
{
    let prev = combined(results.drop_last());
    let k = results.len() - 1;
    if j < prev.len() {
        lemma_combined_from_groups(results.drop_last(), j);
        let (k0, m0) = choose|k0: int, m0: int|
            0 <= k0 < results.drop_last().len() && 0 <= m0 < results.drop_last()[k0].1@.len()
                && (#[trigger] combined(results.drop_last())[j]).provider == results.drop_last()[k0].0
                && same_song(combined(results.drop_last())[j], results.drop_last()[k0].1@[m0]);
        assert(combined(results)[j] == prev[j]);
        assert(results[k0] == results.drop_last()[k0]);
    } else {
        let m = j - prev.len();
        assert(combined(results)[j] == with_provider(results[k].1@[m], results[k].0));
        assert(same_song(combined(results)[j], results[k].1@[m]));
    }
}

/// Every song of the aggregation is credited to the provider whose answer
/// held it: it carries that provider's name and agrees with a song of its
/// answer on everything but rank and provider.
pub proof fn law_merged_credits_the_provider(results: Seq<(String, Vec<SongMatch>)>)
    ensures
        forall|i: int|
            0 <= i < merged(results).len() ==> exists|k: int, m: int|
                0 <= k < results.len() && 0 <= m < results[k].1@.len() && (#[trigger] merged(
                    results,
                )[i]).provider == results[k].0 && same_song(merged(results)[i], results[k].1@[m]),
{
    law_merged_from_answers(results);
    let c = combined(results);
    assert forall|i: int| 0 <= i < merged(results).len() implies exists|k: int, m: int|
        0 <= k < results.len() && 0 <= m < results[k].1@.len() && (#[trigger] merged(
            results,
        )[i]).provider == results[k].0 && same_song(merged(results)[i], results[k].1@[m]) by {
        let j = choose|j: int|
            0 <= j < c.len() && #[trigger] merged(results)[i] == with_rank(c[j], Some((i + 1) as usize));
        lemma_combined_from_groups(results, j);
    }
}

} // verus!
