use songhunter::config::{
    default_acoustid_url, default_ad_refresh_secs, default_cache_ttl_hours, default_ffmpeg_path,
    default_fpcalc_path, default_host, default_max_concurrent_tasks, default_port,
    default_temp_dir, default_ytdlp_path, split_extra_args, AcoustIdConfig, AcrCloudConfig,
    AdsConfig, AdsterraConfig, Config, EnvFallbacks, HouseAdSlot, ShazamConfig,
};

fn bare_config() -> Config {
    Config {
        host: default_host(),
        port: default_port(),
        acoustid: None,
        acrcloud: None,
        shazam: None,
        temp_dir: default_temp_dir(),
        cache_ttl_hours: default_cache_ttl_hours(),
        max_concurrent_tasks: default_max_concurrent_tasks(),
        ytdlp_path: default_ytdlp_path(),
        ffmpeg_path: default_ffmpeg_path(),
        ytdlp_extra_args: Vec::new(),
        ytdlp_cookies_file: None,
        ads: AdsConfig::default(),
    }
}

fn no_env() -> EnvFallbacks {
    EnvFallbacks {
        ytdlp_cookies_file: None,
        acoustid_api_key: None,
        acoustid_url: None,
        acoustid_fpcalc_path: None,
        acrcloud_host: None,
        acrcloud_access_key: None,
        acrcloud_access_secret: None,
        ytdlp_extra_args: None,
    }
}

#[test]
fn defaults() {
    assert_eq!(default_host(), "0.0.0.0");
    assert_eq!(default_port(), 3000);
    assert_eq!(default_temp_dir(), "./tmp");
    assert_eq!(default_cache_ttl_hours(), 168);
    assert_eq!(default_max_concurrent_tasks(), 4);
    assert_eq!(default_ytdlp_path(), "yt-dlp");
    assert_eq!(default_ffmpeg_path(), "ffmpeg");
    assert_eq!(default_fpcalc_path(), "fpcalc");
    assert_eq!(default_acoustid_url(), "https://api.acoustid.org/v2/lookup");
    assert_eq!(default_ad_refresh_secs(), 60);
}

#[test]
fn acoustid_enabled_needs_a_real_key() {
    let mk = |k: &str| AcoustIdConfig {
        url: default_acoustid_url(),
        api_key: k.to_string(),
        fpcalc_path: default_fpcalc_path(),
    };
    assert!(mk("abc").enabled());
    assert!(!mk("").enabled());
    assert!(!mk("sua_chave_aqui").enabled());
}

#[test]
fn fallbacks_fill_only_what_is_missing() {
    let mut env = no_env();
    env.ytdlp_cookies_file = Some("/c.txt".to_string());
    env.acoustid_api_key = Some("key".to_string());
    env.acrcloud_host = Some("h".to_string());
    env.acrcloud_access_key = Some("k".to_string());
    env.acrcloud_access_secret = Some("s".to_string());
    env.ytdlp_extra_args = Some("--proxy 'http://a b' '' -v".to_string());
    let c = bare_config().with_fallbacks(env);
    assert_eq!(c.ytdlp_cookies_file.as_deref(), Some("/c.txt"));
    let a = c.acoustid.unwrap();
    assert_eq!(a.api_key, "key");
    assert_eq!(a.url, "https://api.acoustid.org/v2/lookup");
    assert_eq!(a.fpcalc_path, "fpcalc");
    let r = c.acrcloud.unwrap();
    assert_eq!((r.host.as_str(), r.access_key.as_str(), r.access_secret.as_str()), ("h", "k", "s"));
    assert!(c.shazam.is_some());
    assert_eq!(c.ytdlp_extra_args, vec!["--proxy", "http://a b", "-v"]);
}

#[test]
fn fallbacks_reject_placeholders_and_empties() {
    let mut env = no_env();
    env.ytdlp_cookies_file = Some(String::new());
    env.acoustid_api_key = Some("sua_chave_aqui".to_string());
    env.acrcloud_host = Some("h".to_string());
    env.acrcloud_access_key = Some(String::new());
    env.acrcloud_access_secret = Some("s".to_string());
    env.ytdlp_extra_args = Some("'unterminated".to_string());
    let c = bare_config().with_fallbacks(env);
    assert!(c.ytdlp_cookies_file.is_none());
    assert!(c.acoustid.is_none());
    assert!(c.acrcloud.is_none());
    assert!(c.ytdlp_extra_args.is_empty());
}

#[test]
fn configured_values_win_over_the_environment() {
    let mut cfg = bare_config();
    cfg.ytdlp_cookies_file = Some("mine".to_string());
    cfg.ytdlp_extra_args = vec!["-q".to_string()];
    cfg.acrcloud = Some(AcrCloudConfig {
        host: "x".to_string(),
        access_key: "y".to_string(),
        access_secret: "z".to_string(),
    });
    cfg.shazam = Some(ShazamConfig {});
    let mut env = no_env();
    env.ytdlp_cookies_file = Some("/other".to_string());
    env.ytdlp_extra_args = Some("-v".to_string());
    env.acrcloud_host = Some("h".to_string());
    env.acrcloud_access_key = Some("k".to_string());
    env.acrcloud_access_secret = Some("s".to_string());
    env.acoustid_api_key = Some("key".to_string());
    env.acoustid_url = Some("http://local".to_string());
    env.acoustid_fpcalc_path = Some("/bin/fpcalc".to_string());
    let c = cfg.with_fallbacks(env);
    assert_eq!(c.ytdlp_cookies_file.as_deref(), Some("mine"));
    assert_eq!(c.ytdlp_extra_args, vec!["-q"]);
    assert_eq!(c.acrcloud.unwrap().host, "x");
    let a = c.acoustid.unwrap();
    assert_eq!(a.url, "http://local");
    assert_eq!(a.fpcalc_path, "/bin/fpcalc");
}

#[test]
fn extra_args_split_like_a_shell() {
    assert_eq!(split_extra_args("a \"b c\" d"), vec!["a", "b c", "d"]);
    assert!(split_extra_args("").is_empty());
    assert!(split_extra_args("\"open").is_empty());
}

#[test]
fn address_text() {
    let mut c = bare_config();
    assert_eq!(c.addr_text(), "0.0.0.0:3000");
    c.host = "127.0.0.1".to_string();
    c.port = 8080;
    assert_eq!(c.addr_text(), "127.0.0.1:8080");
}

#[test]
fn enabled_ad_providers_in_fixed_order() {
    let mut ads = AdsConfig::default();
    assert!(ads.enabled_providers().is_empty());
    ads.carbon_uid = Some("c".to_string());
    ads.adsterra.push(AdsterraConfig {
        slot: "s".to_string(),
        script_src: None,
        redirect_url: None,
        container_id: None,
        cpm_bits: None,
    });
    ads.house.push(HouseAdSlot {
        slot: "s".to_string(),
        image_url: "i".to_string(),
        dest_url: "d".to_string(),
        alt: None,
        cpm_bits: None,
    });
    ads.adsense_client = Some("a".to_string());
    assert_eq!(ads.enabled_providers(), vec!["house", "adsterra", "adsense", "carbon"]);
}
