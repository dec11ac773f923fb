use songhunter::cache::audio_hash;
use songhunter::config::{AcoustIdConfig, AcrCloudConfig, AdsConfig, Config, ShazamConfig};
use songhunter::identifiers::acoustid::{AcoustIdIdentifier, AcoustIdRecording, AcoustIdResult};
use songhunter::identifiers::acrcloud::{AcrCategory, AcrCloudIdentifier, AcrItem};
use songhunter::identifiers::registry::IdentifierRegistry;
use songhunter::identifiers::shazam::{ShazamIdentifier, ShazamReply};

fn acr() -> AcrCloudIdentifier {
    AcrCloudIdentifier::new(AcrCloudConfig {
        host: "identify-eu-west-1.acrcloud.com".to_string(),
        access_key: "key123".to_string(),
        access_secret: "secret".to_string(),
    })
}

#[test]
fn acrcloud_signature_is_base64_hmac_sha1() {
    assert_eq!(acr().build_signature("1700000000"), "0yBhFUOTlG4ktMiab6ULNADd5tY=");
}

#[test]
fn acrcloud_request_parts() {
    let a = acr();
    assert_eq!(a.name(), "acrcloud");
    assert!(a.enabled());
    assert_eq!(a.identify_url(), "https://identify-eu-west-1.acrcloud.com/v1/identify");
    let fields = a.form_fields(1234, "17", "sig");
    let pairs: Vec<(&str, &str)> = fields.iter().map(|(k, v)| (k.as_str(), v.as_str())).collect();
    assert_eq!(
        pairs,
        vec![
            ("access_key", "key123"),
            ("sample_bytes", "1234"),
            ("timestamp", "17"),
            ("signature", "sig"),
            ("data_type", "audio"),
            ("signature_version", "1"),
        ]
    );
    let off = AcrCloudIdentifier::new(AcrCloudConfig { host: String::new(), access_key: "k".into(), access_secret: "s".into() });
    assert!(!off.enabled());
}

fn item(title: Option<&str>, score: f32) -> AcrItem {
    AcrItem {
        title: title.map(|s| s.to_string()),
        artist: None,
        album: Some("Alb".to_string()),
        score_bits: score.to_bits(),
        duration_bits: Some(200.5f32.to_bits()),
    }
}

#[test]
fn acrcloud_matches_take_two_per_list_and_sort() {
    let metadata = vec![
        AcrCategory { kind: "humming".to_string(), items: None },
        AcrCategory { kind: "music".to_string(), items: Some(vec![item(Some("A"), 0.5), item(None, 100.0), item(Some("C"), 0.9)]) },
        AcrCategory { kind: "custom".to_string(), items: Some(vec![item(Some("D"), 0.7)]) },
    ];
    let songs = AcrCloudIdentifier::matches(metadata);
    let summary: Vec<(String, String, f32)> =
        songs.iter().map(|s| (s.title.clone(), s.provider.clone(), f32::from_bits(s.confidence_bits))).collect();
    assert_eq!(
        summary,
        vec![
            ("Unknown".to_string(), "acrcloud/music".to_string(), 1.0),
            ("D".to_string(), "acrcloud/custom".to_string(), 0.7),
            ("A".to_string(), "acrcloud/music".to_string(), 0.5),
        ]
    );
    assert_eq!(songs[0].artist, "Unknown");
    assert_eq!(songs[0].album.as_deref(), Some("Alb"));
    assert_eq!(songs[0].duration_bits.map(f32::from_bits), Some(200.5));
}

fn rec(title: &str) -> AcoustIdRecording {
    AcoustIdRecording { title: Some(title.to_string()), artist: Some("Art".to_string()), album: None, duration_bits: None }
}

#[test]
fn acoustid_matches() {
    let results = vec![
        AcoustIdResult { score_bits: 0.4f32.to_bits(), recordings: Some(vec![rec("a"), rec("b"), rec("c")]) },
        AcoustIdResult { score_bits: 0.9f32.to_bits(), recordings: Some(vec![rec("d")]) },
        AcoustIdResult { score_bits: 0.95f32.to_bits(), recordings: None },
        AcoustIdResult { score_bits: 0.1f32.to_bits(), recordings: Some(Vec::new()) },
        AcoustIdResult { score_bits: 0.99f32.to_bits(), recordings: Some(vec![rec("e")]) },
    ];
    let songs = AcoustIdIdentifier::matches(results);
    let titles: Vec<&str> = songs.iter().map(|s| s.title.as_str()).collect();
    assert_eq!(titles, vec!["d", "a", "b"]);
    assert!(songs.iter().all(|s| s.provider == "acoustid" && s.artist == "Art"));
    let one = AcoustIdIdentifier::extract_recording_matches(Some(vec![rec("x")]), 3.0f32.to_bits());
    assert_eq!(f32::from_bits(one[0].confidence_bits), 1.0);
    assert!(AcoustIdIdentifier::extract_recording_matches(None, 0).is_empty());
}

#[test]
fn acoustid_lookup_query() {
    let a = AcoustIdIdentifier::new(AcoustIdConfig {
        url: "u".to_string(),
        api_key: "K".to_string(),
        fpcalc_path: "fpcalc".to_string(),
    });
    assert!(a.enabled());
    assert_eq!(a.name(), "acoustid");
    let p = a.lookup_params("FP");
    assert_eq!(p[0], ("client".to_string(), "K".to_string()));
    assert_eq!(p[1], ("fingerprint".to_string(), "FP".to_string()));
    assert_eq!(p[2].1, "recordings sources releasegroups releases tracks compress");
    assert_eq!(p[3], ("format".to_string(), "json".to_string()));
}

#[test]
fn shazam_answers() {
    let s = ShazamIdentifier::new(ShazamConfig {});
    assert_eq!(s.python_path, "python3");
    assert_eq!(s.script_args("/w.wav"), vec!["/app/scripts/shazam_recognize.py", "/w.wav"]);
    assert!(s.enabled());
    let reply = |err: bool, title: Option<&str>, score: Option<f32>| ShazamReply {
        has_error: err,
        title: title.map(|t| t.to_string()),
        artist: None,
        album: None,
        artwork_url: Some("art".to_string()),
        preview_url: None,
        isrc: Some("ISRC1".to_string()),
        score_bits: score.map(f32::to_bits),
    };
    assert!(ShazamIdentifier::matches(reply(true, Some("t"), None)).is_empty());
    assert!(ShazamIdentifier::matches(reply(false, None, None)).is_empty());
    let m = ShazamIdentifier::matches(reply(false, Some("Song"), None));
    assert_eq!(m.len(), 1);
    assert_eq!(m[0].artist, "Unknown");
    assert_eq!(m[0].provider, "shazam");
    assert_eq!(f32::from_bits(m[0].confidence_bits), 0.8);
    assert_eq!(m[0].isrc.as_deref(), Some("ISRC1"));
    let m = ShazamIdentifier::matches(reply(false, Some("Song"), Some(0.25)));
    assert_eq!(f32::from_bits(m[0].confidence_bits), 0.25);
}

fn config(shazam: bool, acoustid_key: Option<&str>, acr: bool) -> Config {
    Config {
        host: "h".into(),
        port: 1,
        acoustid: acoustid_key.map(|k| AcoustIdConfig { url: "u".into(), api_key: k.into(), fpcalc_path: "f".into() }),
        acrcloud: if acr {
            Some(AcrCloudConfig { host: "h".into(), access_key: String::new(), access_secret: "s".into() })
        } else {
            None
        },
        shazam: if shazam { Some(ShazamConfig {}) } else { None },
        temp_dir: "t".into(),
        cache_ttl_hours: 1,
        max_concurrent_tasks: 1,
        ytdlp_path: "y".into(),
        ffmpeg_path: "f".into(),
        ytdlp_extra_args: Vec::new(),
        ytdlp_cookies_file: None,
        ads: AdsConfig::default(),
    }
}

#[test]
fn registry_from_configuration() {
    let r = IdentifierRegistry::from_config(&config(false, None, false));
    assert_eq!(r.enabled_backends(), vec!["shazam"]);
    let r = IdentifierRegistry::from_config(&config(true, Some(""), true));
    assert_eq!(r.backends.len(), 3);
    assert_eq!(r.enabled_backends(), vec!["shazam"]);
    let r = IdentifierRegistry::from_config(&config(false, Some("k"), false));
    assert_eq!(r.enabled_backends(), vec!["acoustid"]);
}

#[test]
fn audio_hash_is_hex_sha256() {
    assert_eq!(audio_hash(b"abc"), "ba7816bf8f01cfea414140de5dae2223b00361a396177a9cb410ff61f20015ad");
    assert_eq!(audio_hash(b"").len(), 64);
}
