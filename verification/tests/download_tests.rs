use songhunter::audio::AudioProcessor;
use songhunter::download::{tikwm_api_url, tikwm_media_url, Downloader, TikwmReply};
use songhunter::error::AppError;

fn downloader(cookies: Option<&str>, extra: Vec<&str>) -> Downloader {
    Downloader::new(
        "yt-dlp".to_string(),
        "./tmp".to_string(),
        extra.into_iter().map(|s| s.to_string()).collect(),
        cookies.map(|s| s.to_string()),
    )
}

#[test]
fn tiktok_photo_links_become_video_links() {
    assert_eq!(
        Downloader::fix_tiktok_photo("https://www.tiktok.com/@u/photo/123"),
        "https://www.tiktok.com/@u/video/123"
    );
    assert_eq!(Downloader::fix_tiktok_photo("https://example.com/photo/1"), "https://example.com/photo/1");
}

#[test]
fn instagram_links_are_normalized() {
    assert_eq!(
        Downloader::normalize_instagram("https://www.instagram.com/reels/abc/?igsh=xyz#frag"),
        "https://www.instagram.com/reel/abc/"
    );
    assert_eq!(Downloader::normalize_instagram("https://youtu.be/x?t=1"), "https://youtu.be/x?t=1");
}

#[test]
fn redirects_are_followed_once() {
    assert_eq!(Downloader::follow_redirect("https://vt.tiktok.com/a/", Some("https://www.tiktok.com/v/1")), "https://www.tiktok.com/v/1");
    assert_eq!(Downloader::follow_redirect("https://vt.tiktok.com/ZS1/", Some("/video/9")), "https://vt.tiktok.com/video/9");
    assert_eq!(Downloader::follow_redirect("https://vt.tiktok.com/ZS1/", Some("v/2?x=1")), "https://vt.tiktok.com/ZS1/v/2?x=1");
    assert_eq!(Downloader::follow_redirect("https://vt.tiktok.com/a/b", Some("../c")), "https://vt.tiktok.com/c");
    assert_eq!(Downloader::follow_redirect("https://vt.tiktok.com/a", None), "https://vt.tiktok.com/a");
}

#[test]
fn effective_urls() {
    assert!(Downloader::needs_redirect("https://vm.tiktok.com/ZM1"));
    assert!(!Downloader::needs_redirect("https://youtube.com/watch?v=1"));
    assert_eq!(
        Downloader::effective_url("https://vm.tiktok.com/ZM1", Some("https://www.tiktok.com/@u/photo/9?x=1")),
        "https://www.tiktok.com/@u/video/9?x=1"
    );
    assert_eq!(Downloader::effective_url("https://instagram.com/reels/1?a", None), "https://instagram.com/reel/1");
    assert_eq!(Downloader::effective_url("https://youtube.com/watch?v=1", Some("/ignored")), "https://youtube.com/watch?v=1");
    assert!(Downloader::should_fall_back("https://www.tiktok.com/@u/video/9"));
    assert!(!Downloader::should_fall_back("https://instagram.com/reel/1"));
}

#[test]
fn ytdlp_command_line() {
    let d = downloader(Some("/c.txt"), vec!["--proxy", "p"]);
    assert_eq!(d.output_dir("t1"), "./tmp/t1");
    let template = d.output_template("t1");
    assert_eq!(template, "./tmp/t1/%(id)s.%(ext)s");
    assert_eq!(
        d.ytdlp_args("https://u", &template),
        vec![
            "--no-playlist", "--extract-audio", "--audio-format", "wav", "--audio-quality", "0",
            "--output", "./tmp/t1/%(id)s.%(ext)s", "--newline", "--no-warnings", "--cookies",
            "/c.txt", "--proxy", "p", "https://u",
        ]
    );
    let plain = downloader(None, Vec::new());
    assert_eq!(plain.ytdlp_args("u", "t").len(), 11);
}

#[test]
fn first_wav_is_picked() {
    let names: Vec<String> = vec!["a.part".into(), ".wav".into(), "x.wav".into(), "y.wav".into()];
    assert_eq!(Downloader::pick_wav(&names).ok(), Some(2));
    match Downloader::pick_wav(&vec!["a.mp3".to_string()]) {
        Err(AppError::Download(m)) => assert_eq!(m, "yt-dlp did not produce a wav file"),
        _ => panic!("expected a download error"),
    }
}

#[test]
fn tikwm_answers() {
    let ok = tikwm_media_url(TikwmReply { code: Some(0), msg: None, play: Some("https://m.mp4".to_string()) });
    assert_eq!(ok.ok().as_deref(), Some("https://m.mp4"));
    match tikwm_media_url(TikwmReply { code: Some(-1), msg: Some("bad url".to_string()), play: None }) {
        Err(AppError::Download(m)) => assert_eq!(m, "TikWM error: bad url"),
        _ => panic!(),
    }
    match tikwm_media_url(TikwmReply { code: None, msg: None, play: Some("x".to_string()) }) {
        Err(AppError::Download(m)) => assert_eq!(m, "TikWM error: unknown error"),
        _ => panic!(),
    }
    match tikwm_media_url(TikwmReply { code: Some(0), msg: None, play: None }) {
        Err(AppError::Download(m)) => assert_eq!(m, "TikWM response missing data.play"),
        _ => panic!(),
    }
}

#[test]
fn audio_tool_command_lines() {
    let p = AudioProcessor::new("ffmpeg".to_string(), "fpcalc".to_string(), "./tmp".to_string());
    assert_eq!(p.task_dir("t"), "./tmp/t");
    assert_eq!(p.normalized_path("t"), "./tmp/t/normalized.wav");
    assert_eq!(
        AudioProcessor::ffmpeg_args("in.wav", "out.wav"),
        vec!["-y", "-i", "in.wav", "-t", "90", "-ar", "44100", "-ac", "1", "-sample_fmt", "s16", "out.wav"]
    );
    assert_eq!(AudioProcessor::fpcalc_args("a.wav"), vec!["-json", "-length", "90", "a.wav"]);
}

#[test]
fn fingerprint_outcomes() {
    assert_eq!(AudioProcessor::fingerprint_outcome(Some("AQAA".to_string()), None).ok(), Some(("AQAA".to_string(), 90)));
    assert_eq!(AudioProcessor::fingerprint_outcome(Some("AQAA".to_string()), Some(31)).ok(), Some(("AQAA".to_string(), 31)));
    match AudioProcessor::fingerprint_outcome(None, Some(3)) {
        Err(AppError::Identification(m)) => assert_eq!(m, "fpcalc did not return a fingerprint"),
        _ => panic!(),
    }
}

#[test]
fn redirect_with_a_given_resolution() {
    let joined = Some("https://vt.tiktok.com/video/9".to_string());
    assert_eq!(Downloader::redirect_with("https://vt.tiktok.com/ZS1/", Some("/video/9"), joined.clone()), "https://vt.tiktok.com/video/9");
    assert_eq!(Downloader::redirect_with("https://vt.tiktok.com/ZS1/", Some("/video/9"), None), "https://vt.tiktok.com/ZS1/");
    assert_eq!(Downloader::redirect_with("https://a.com/", Some("https://b.com/x"), joined.clone()), "https://b.com/x");
    assert_eq!(Downloader::redirect_with("https://a.com/", None, joined), "https://a.com/");
}

#[test]
fn tikwm_request_url() {
    assert_eq!(
        tikwm_api_url("https://vm.tiktok.com/a b?x=1&y=é"),
        "https://www.tikwm.com/api/?url=https%3A%2F%2Fvm.tiktok.com%2Fa+b%3Fx%3D1%26y%3D%C3%A9"
    );
}
