use songhunter::identifiers::{merge_results, song_key_of, sort_by_confidence, MAX_RESULTS};
use songhunter::models::SongMatch;

fn song(title: &str, artist: &str, confidence: f32) -> SongMatch {
    SongMatch {
        rank: None,
        title: title.to_string(),
        artist: artist.to_string(),
        album: None,
        confidence_bits: confidence.to_bits(),
        provider: "whatever".to_string(),
        artwork_url: None,
        preview_url: None,
        isrc: None,
        duration_bits: None,
    }
}

fn titles(v: &[SongMatch]) -> Vec<String> {
    v.iter().map(|s| s.title.clone()).collect()
}

#[test]
fn merge_attributes_sorts_dedups_and_ranks() {
    let results = vec![
        ("shazam".to_string(), vec![song("Hello", "Adele", 0.8)]),
        (
            "acoustid".to_string(),
            vec![song("hello ", " ADELE", 0.9), song("Other", "Someone", 0.5)],
        ),
    ];
    let out = merge_results(results);
    assert_eq!(titles(&out), vec!["hello ", "Other"]);
    assert_eq!(out[0].provider, "acoustid");
    assert_eq!(out[0].rank, Some(1));
    assert_eq!(out[1].rank, Some(2));
    assert_eq!(f32::from_bits(out[0].confidence_bits), 0.9);
}

#[test]
fn merge_keeps_at_most_four() {
    let songs: Vec<SongMatch> =
        (0..6).map(|i| song(&format!("t{i}"), "a", i as f32 / 10.0)).collect();
    let out = merge_results(vec![("p".to_string(), songs)]);
    assert_eq!(out.len(), MAX_RESULTS);
    assert_eq!(titles(&out), vec!["t5", "t4", "t3", "t2"]);
    let ranks: Vec<Option<usize>> = out.iter().map(|s| s.rank).collect();
    assert_eq!(ranks, vec![Some(1), Some(2), Some(3), Some(4)]);
}

#[test]
fn merge_of_nothing_is_empty() {
    assert!(merge_results(Vec::new()).is_empty());
    assert!(merge_results(vec![("p".to_string(), Vec::new())]).is_empty());
}

#[test]
fn equal_confidences_keep_their_order() {
    let out = sort_by_confidence(vec![
        song("a", "x", 0.5),
        song("b", "x", 0.7),
        song("c", "x", 0.5),
        song("d", "x", 0.7),
    ]);
    assert_eq!(titles(&out), vec!["b", "d", "a", "c"]);
}

#[test]
fn negative_zero_ties_with_zero() {
    let out = sort_by_confidence(vec![song("neg", "x", -0.0), song("pos", "x", 0.0), song("m", "x", -1.0)]);
    assert_eq!(titles(&out), vec!["neg", "pos", "m"]);
}

#[test]
fn dedup_key_is_case_and_space_insensitive() {
    assert_eq!(song_key_of(&song(" Título ", "ÁRTISTA", 0.1)), "ártista - título");
    assert_eq!(song_key_of(&song("b - c", "a", 0.1)), song_key_of(&song("c", "a - b", 0.1)));
}

#[test]
fn first_of_equal_keys_wins() {
    let out = merge_results(vec![(
        "p".to_string(),
        vec![song("c", "a - b", 0.6), song("b - c", "a", 0.6)],
    )]);
    assert_eq!(out.len(), 1);
    assert_eq!(out[0].title, "c");
}

#[test]
fn single_nan_song_is_accepted() {
    let out = merge_results(vec![("p".to_string(), vec![song("x", "y", f32::NAN)])]);
    assert_eq!(out.len(), 1);
    assert_eq!(out[0].rank, Some(1));
}
