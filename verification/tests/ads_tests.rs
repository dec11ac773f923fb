use songhunter::ads::{adsterra_html, house_html, AdEngine};
use songhunter::config::{AdsConfig, AdsterraConfig, HouseAdSlot};

fn house(slot: &str, cpm: Option<f64>, alt: Option<&str>) -> HouseAdSlot {
    HouseAdSlot {
        slot: slot.to_string(),
        image_url: "https://img/x.png".to_string(),
        dest_url: "https://dest".to_string(),
        alt: alt.map(|s| s.to_string()),
        cpm_bits: cpm.map(f64::to_bits),
    }
}

fn terra(slot: &str, cpm: Option<f64>, src: Option<&str>, redirect: Option<&str>, cid: Option<&str>) -> AdsterraConfig {
    AdsterraConfig {
        slot: slot.to_string(),
        script_src: src.map(|s| s.to_string()),
        redirect_url: redirect.map(|s| s.to_string()),
        container_id: cid.map(|s| s.to_string()),
        cpm_bits: cpm.map(f64::to_bits),
    }
}

fn ads(house_ads: Vec<HouseAdSlot>, terra_ads: Vec<AdsterraConfig>) -> AdsConfig {
    AdsConfig { house: house_ads, adsterra: terra_ads, adsense_client: None, carbon_uid: None, refresh_secs: 60 }
}

#[test]
fn house_markup_escapes_alt() {
    assert_eq!(
        house_html(&house("top", None, Some("Say \"hi\""))),
        "<a href=\"https://dest\" target=\"_blank\" rel=\"sponsored noopener\"><img src=\"https://img/x.png\" alt=\"Say &quot;hi&quot;\" style=\"width:100%;height:auto;border-radius:6px;display:block\" /></a>"
    );
    assert!(house_html(&house("top", None, None)).contains("alt=\"Anúncio\""));
}

#[test]
fn adsterra_markup_variants() {
    assert_eq!(
        adsterra_html(&terra("s", None, Some("https://s.js"), None, Some("c1"))),
        "<div id=\"c1\"></div><script async src=\"https://s.js\"></script>"
    );
    assert_eq!(
        adsterra_html(&terra("s", None, Some("https://s.js"), Some("https://r"), None)),
        "<script type=\"text/javascript\" src=\"https://s.js\"></script>"
    );
    assert_eq!(
        adsterra_html(&terra("s", None, None, Some("https://r"), None)),
        "<a href=\"https://r\" target=\"_blank\" rel=\"sponsored noopener\" class=\"ad-link\">Patrocinado &rsaquo;</a>"
    );
    assert_eq!(adsterra_html(&terra("s", None, None, None, None)), "");
}

#[test]
fn highest_cpm_wins_each_slot() {
    let engine = AdEngine::new(ads(
        vec![house("top", Some(2.0), None), house("side", None, None)],
        vec![terra("top", None, None, Some("https://r"), None), terra("side", None, None, Some("https://r2"), None)],
    ));
    let r = engine.collect();
    assert_eq!(r.refresh_secs, 60);
    assert_eq!(r.slots.len(), 2);
    let top = r.slots.iter().find(|s| s.slot == "top").unwrap();
    assert_eq!(top.provider, "house");
    assert_eq!(f64::from_bits(top.cpm_bits), 2.0);
    let side = r.slots.iter().find(|s| s.slot == "side").unwrap();
    assert_eq!(side.provider, "adsterra");
    assert_eq!(f64::from_bits(side.cpm_bits), 1.0);
    assert!(r.smartlink_url.is_none());
}

#[test]
fn ties_go_to_the_later_candidate() {
    let engine = AdEngine::new(ads(vec![house("top", Some(1.0), None)], vec![terra("top", None, None, None, None)]));
    let r = engine.collect();
    assert_eq!(r.slots.len(), 1);
    assert_eq!(r.slots[0].provider, "adsterra");
}

#[test]
fn smartlink_comes_from_the_first_terra_slot() {
    let engine = AdEngine::new(ads(
        Vec::new(),
        vec![
            terra("other", None, None, Some("https://x"), None),
            terra("terra", None, None, Some("https://smart"), None),
            terra("terra", None, None, Some("https://later"), None),
        ],
    ));
    assert_eq!(engine.collect().smartlink_url.as_deref(), Some("https://smart"));
    let engine = AdEngine::new(ads(Vec::new(), vec![terra("terra", None, Some("s.js"), None, None)]));
    assert!(engine.collect().smartlink_url.is_none());
}

#[test]
fn no_ads_no_slots() {
    let r = AdEngine::new(ads(Vec::new(), Vec::new())).collect();
    assert!(r.slots.is_empty());
}
