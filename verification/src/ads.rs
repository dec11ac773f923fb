//! Choosing which ad fills each slot of the page.

use vstd::prelude::*;
use crate::config::{AdsConfig, AdsterraConfig, HouseAdSlot};
use crate::text::{replace_all, replaced};

verus! {

// ---------------------------------------------------------------------
// IEEE-754 double precision, read from the bits
// ---------------------------------------------------------------------

/// The bits without the sign bit.
pub open spec fn f64_magnitude(bits: u64) -> int {
    if bits >= 0x8000_0000_0000_0000 {
        bits - 0x8000_0000_0000_0000
    } else {
        bits as int
    }
}

/// The bits encode a NaN.
pub open spec fn f64_is_nan(bits: u64) -> bool {
    f64_magnitude(bits) > 0x7ff0_0000_0000_0000
}

/// An integer that orders non-NaN doubles as the reals they encode.
pub open spec fn f64_order(bits: u64) -> int {
    if bits >= 0x8000_0000_0000_0000 {
        -f64_magnitude(bits)
    } else {
        bits as int
    }
}

/// `a.partial_cmp(&b) == Some(Greater)`: neither is NaN and `a > b`.
pub open spec fn cpm_greater(a: u64, b: u64) -> bool {
    !f64_is_nan(a) && !f64_is_nan(b) && f64_order(a) > f64_order(b)
}

fn cpm_greater_exec(a: u64, b: u64) -> (r: bool)
    ensures
        r == cpm_greater(a, b),
{
    let ma: u64 = if a >= 0x8000_0000_0000_0000 { a - 0x8000_0000_0000_0000 } else { a };
    let mb: u64 = if b >= 0x8000_0000_0000_0000 { b - 0x8000_0000_0000_0000 } else { b };
    if ma > 0x7ff0_0000_0000_0000 || mb > 0x7ff0_0000_0000_0000 {
        return false;
    }
    let oa: i128 = if a >= 0x8000_0000_0000_0000 { -(ma as i128) } else { ma as i128 };
    let ob: i128 = if b >= 0x8000_0000_0000_0000 { -(mb as i128) } else { mb as i128 };
    oa > ob
}

/// Bits of `0.50f64`, the CPM of a house ad that states none.
pub const HOUSE_DEFAULT_CPM_BITS: u64 = 0x3fe0_0000_0000_0000;

/// Bits of `1.00f64`, the CPM of an Adsterra ad that states none.
pub const ADSTERRA_DEFAULT_CPM_BITS: u64 = 0x3ff0_0000_0000_0000;

// ---------------------------------------------------------------------
// Results
// ---------------------------------------------------------------------

/// The ad chosen for one slot.
pub struct AdSlotResult {
    pub slot: String,
    pub provider: &'static str,
    pub html: String,
    /// Bits of the `f64` CPM.
    pub cpm_bits: u64,
}

/// The ads of a page.
pub struct AdResponse {
    pub slots: Vec<AdSlotResult>,
    pub refresh_secs: u64,
    pub smartlink_url: Option<String>,
}

/// What an ad result holds, as plain values: slot, provider, HTML, CPM bits.
pub open spec fn ad_view(r: AdSlotResult) -> (Seq<char>, Seq<char>, Seq<char>, u64) {
    (r.slot@, r.provider@, r.html@, r.cpm_bits)
}

/// The views of a sequence of results.
pub open spec fn ad_views(s: Seq<AdSlotResult>) -> Seq<(Seq<char>, Seq<char>, Seq<char>, u64)> {
    s.map_values(|r: AdSlotResult| ad_view(r))
}

// ---------------------------------------------------------------------
// HTML
// ---------------------------------------------------------------------

/// The markup of a house ad: a sponsored link around the image, whose
/// `alt` text (by default "Anúncio") has its double quotes escaped.
pub open spec fn house_markup(h: HouseAdSlot) -> Seq<char> {
    let alt = match h.alt {
        Some(a) => a@,
        None => "Anúncio"@,
    };
    "<a href=\""@ + h.dest_url@ + "\" target=\"_blank\" rel=\"sponsored noopener\"><img src=\""@
        + h.image_url@ + "\" alt=\""@ + replaced(alt, "\""@, "&quot;"@)
        + "\" style=\"width:100%;height:auto;border-radius:6px;display:block\" /></a>"@
}

/// The markup of an Adsterra ad: its script (in its container when one is
/// named), else a sponsored link to its redirect, else nothing.
pub open spec fn adsterra_markup(a: AdsterraConfig) -> Seq<char> {
    match a.script_src {
        Some(src) => match a.container_id {
            Some(cid) => "<div id=\""@ + cid@ + "\"></div><script async src=\""@ + src@
                + "\"></script>"@,
            None => "<script type=\"text/javascript\" src=\""@ + src@ + "\"></script>"@,
        },
        None => match a.redirect_url {
            Some(url) => "<a href=\""@ + url@
                + "\" target=\"_blank\" rel=\"sponsored noopener\" class=\"ad-link\">Patrocinado &rsaquo;</a>"@,
            None => Seq::empty(),
        },
    }
}

/// The candidate of a house ad.
pub open spec fn house_candidate(h: HouseAdSlot) -> (Seq<char>, Seq<char>, Seq<char>, u64) {
    (
        h.slot@,
        "house"@,
        house_markup(h),
        match h.cpm_bits {
            Some(b) => b,
            None => HOUSE_DEFAULT_CPM_BITS,
        },
    )
}

/// The candidate of an Adsterra ad.
pub open spec fn adsterra_candidate(a: AdsterraConfig) -> (Seq<char>, Seq<char>, Seq<char>, u64) {
    (
        a.slot@,
        "adsterra"@,
        adsterra_markup(a),
        match a.cpm_bits {
            Some(b) => b,
            None => ADSTERRA_DEFAULT_CPM_BITS,
        },
    )
}

/// All candidates: the house ads, then the Adsterra ads, in configuration order.
pub open spec fn candidates(c: AdsConfig) -> Seq<(Seq<char>, Seq<char>, Seq<char>, u64)> {
    c.house@.map_values(|h: HouseAdSlot| house_candidate(h)) + c.adsterra@.map_values(
        |a: AdsterraConfig| adsterra_candidate(a),
    )
}

/// Of the current choice and a later candidate for the same slot, the
/// later one wins unless the current one has a strictly greater CPM
/// (`max_by` with incomparable CPMs counted as equal).
pub open spec fn pick(
    cur: (Seq<char>, Seq<char>, Seq<char>, u64),
    next: (Seq<char>, Seq<char>, Seq<char>, u64),
) -> (Seq<char>, Seq<char>, Seq<char>, u64) {
    if cpm_greater(cur.3, next.3) {
        cur
    } else {
        next
    }
}

/// The index of the first choice for `slot`, or the length if there is none.
pub open spec fn slot_position(chosen: Seq<(Seq<char>, Seq<char>, Seq<char>, u64)>, slot: Seq<char>) -> int
    decreases chosen.len(),
{
    if chosen.len() == 0 {
        0
    } else if chosen[0].0 == slot {
        0
    } else {
        1 + slot_position(chosen.drop_first(), slot)
    }
}

/// The chosen ad per slot, slots in order of their first candidate: each
/// candidate either starts its slot or competes with the slot's choice.
pub open spec fn chosen(cands: Seq<(Seq<char>, Seq<char>, Seq<char>, u64)>) -> Seq<
    (Seq<char>, Seq<char>, Seq<char>, u64),
>
    decreases cands.len(),
{
    if cands.len() == 0 {
        Seq::empty()
    } else {
        let prev = chosen(cands.drop_last());
        let c = cands.last();
        let j = slot_position(prev, c.0);
        if j < prev.len() {
            prev.update(j, pick(prev[j], c))
        } else {
            prev.push(c)
        }
    }
}

proof fn lemma_slot_position(s: Seq<(Seq<char>, Seq<char>, Seq<char>, u64)>, slot: Seq<char>)
    ensures
        0 <= slot_position(s, slot) <= s.len(),
        slot_position(s, slot) < s.len() ==> s[slot_position(s, slot)].0 == slot,
        forall|k: int| 0 <= k < slot_position(s, slot) ==> s[k].0 != slot,
    decreases s.len(),
{
    if s.len() > 0 && s[0].0 != slot {
        lemma_slot_position(s.drop_first(), slot);
        assert forall|k: int| 0 <= k < slot_position(s, slot) implies s[k].0 != slot by {
            if k > 0 {
                assert(s[k] == s.drop_first()[k - 1]);
            }
        }
    }
}

/// The engine that fills the ad slots.
pub struct AdEngine {
    config: AdsConfig,
}

impl AdEngine {
    /// The ad settings the engine works from.
    pub closed spec fn settings(&self) -> AdsConfig {
        self.config
    }

    /// An engine for the given ad settings.
    pub fn new(config: AdsConfig) -> (e: Self)
        ensures
            e.settings() == config,
    {
        AdEngine { config }
    }

    /// The ads of a page: one ad per slot, the one with the highest CPM
    /// among the candidates of that slot; the refresh interval; and the
    /// redirect of the first Adsterra ad of slot "terra", if it has one.
    pub fn collect(&self) -> (r: AdResponse)
        ensures
            ad_views(r.slots@) == chosen(candidates(self.settings())),
            r.refresh_secs == self.settings().refresh_secs,
            opt_str_view(r.smartlink_url) == smartlink(self.settings().adsterra@),
    {
        let slots = self.collect_slots();
        let smartlink_url = first_terra_redirect(&self.config.adsterra);
        AdResponse { refresh_secs: self.config.refresh_secs, slots, smartlink_url }
    }

    fn collect_slots(&self) -> (out: Vec<AdSlotResult>)
        ensures
            ad_views(out@) == chosen(candidates(self.settings())),
    {
        let ghost cands = candidates(self.config);
        let ghost nh = self.config.house@.len();
        let mut out: Vec<AdSlotResult> = Vec::new();
        let mut i: usize = 0;
        while i < self.config.house.len()
            invariant
                i <= nh,
                nh == self.config.house@.len(),
                cands == candidates(self.config),
                ad_views(out@) == chosen(cands.take(i as int)),
            decreases nh - i,
        {
            let ad = &self.config.house[i];
            let r = AdSlotResult {
                slot: ad.slot.clone(),
                provider: "house",
                html: house_html(ad),
                cpm_bits: match ad.cpm_bits {
                    Some(b) => b,
                    None => HOUSE_DEFAULT_CPM_BITS,
                },
            };
            assert(ad_view(r) == cands[i as int]);
            assert(cands.take(i + 1).drop_last() =~= cands.take(i as int));
            place(&mut out, r);
            i = i + 1;
        }
        let ghost na = self.config.adsterra@.len();
        let mut k: usize = 0;
        while k < self.config.adsterra.len()
            invariant
                k <= na,
                na == self.config.adsterra@.len(),
                nh == self.config.house@.len(),
                cands == candidates(self.config),
                cands.len() == nh + na,
                ad_views(out@) == chosen(cands.take(nh + k)),
            decreases na - k,
        {
            let ad = &self.config.adsterra[k];
            let r = AdSlotResult {
                slot: ad.slot.clone(),
                provider: "adsterra",
                html: adsterra_html(ad),
                cpm_bits: match ad.cpm_bits {
                    Some(b) => b,
                    None => ADSTERRA_DEFAULT_CPM_BITS,
                },
            };
            assert(ad_view(r) == cands[nh + k]);
            assert(cands.take(nh + k + 1).drop_last() =~= cands.take(nh + k));
            place(&mut out, r);
            k = k + 1;
        }
        assert(cands.take((nh + na) as int) =~= cands);
        out
    }
}

/// Adds a candidate to the choices made so far.
fn place(out: &mut Vec<AdSlotResult>, r: AdSlotResult)
    ensures
        ad_views(final(out)@) == ({
            let prev = ad_views(old(out)@);
            let j = slot_position(prev, ad_view(r).0);
            if j < prev.len() {
                prev.update(j, pick(prev[j], ad_view(r)))
            } else {
                prev.push(ad_view(r))
            }
        }),
{
    let ghost prev = ad_views(out@);
    proof {
        lemma_slot_position(prev, r.slot@);
    }
    let mut j: usize = 0;
    while j < out.len() && out[j].slot != r.slot
        invariant
            j <= out@.len(),
            prev == ad_views(out@),
            forall|k: int| 0 <= k < j ==> out@[k].slot@ != r.slot@,
        decreases out@.len() - j,
    {
        j = j + 1;
    }
    proof {
        let p = slot_position(prev, r.slot@);
        if p < j {
            assert(prev[p].0 == out@[p].slot@);
        }
        if j < out@.len() {
            assert(prev[j as int].0 == r.slot@);
        }
        assert(p == j);
    }
    if j < out.len() {
        if !cpm_greater_exec(out[j].cpm_bits, r.cpm_bits) {
            out.set(j, r);
            assert(ad_views(out@) =~= prev.update(j as int, ad_view(r)));
        }
    } else {
        out.push(r);
        assert(ad_views(out@) =~= prev.push(ad_view(r)));
    }
}

/// The view of an optional string.
pub open spec fn opt_str_view(v: Option<String>) -> Option<Seq<char>> {
    match v {
        Some(s) => Some(s@),
        None => None,
    }
}

/// The redirect of the first Adsterra ad of slot "terra", if that ad has one.
pub open spec fn smartlink(ads: Seq<AdsterraConfig>) -> Option<Seq<char>>
    decreases ads.len(),
{
    if ads.len() == 0 {
        None
    } else if ads[0].slot@ == "terra"@ {
        opt_str_view(ads[0].redirect_url)
    } else {
        smartlink(ads.drop_first())
    }
}

fn first_terra_redirect(ads: &Vec<AdsterraConfig>) -> (r: Option<String>)
    ensures
        opt_str_view(r) == smartlink(ads@),
{
    let terra = String::from_str("terra");
    let mut i: usize = 0;
    assert(ads@.skip(0) =~= ads@);
    while i < ads.len()
        invariant
            i <= ads@.len(),
            terra@ == "terra"@,
            smartlink(ads@) == smartlink(ads@.skip(i as int)),
        decreases ads@.len() - i,
    {
        assert(ads@.skip(i as int).drop_first() =~= ads@.skip(i + 1));
        if ads[i].slot == terra {
            return match &ads[i].redirect_url {
                Some(u) => Some(u.clone()),
                None => None,
            };
        }
        i = i + 1;
    }
    None
}

/// The markup of a house ad.
pub fn house_html(house: &HouseAdSlot) -> (s: String)
    ensures
        s@ == house_markup(*house),
{
    let alt_text = match &house.alt {
        Some(a) => a.clone(),
        None => String::from_str("Anúncio"),
    };
    proof {
        reveal_strlit("\"");
    }
    let alt = replace_all(alt_text.as_str(), "\"", "&quot;");
    let mut s = String::from_str("<a href=\"");
    s.append(house.dest_url.as_str());
    s.append("\" target=\"_blank\" rel=\"sponsored noopener\"><img src=\"");
    s.append(house.image_url.as_str());
    s.append("\" alt=\"");
    s.append(alt.as_str());
    s.append("\" style=\"width:100%;height:auto;border-radius:6px;display:block\" /></a>");
    s
}

/// The markup of an Adsterra ad.
pub fn adsterra_html(ad: &AdsterraConfig) -> (s: String)
    ensures
        s@ == adsterra_markup(*ad),
{
    match &ad.script_src {
        Some(src) => match &ad.container_id {
            Some(cid) => {
                let mut s = String::from_str("<div id=\"");
                s.append(cid.as_str());
                s.append("\"></div><script async src=\"");
                s.append(src.as_str());
                s.append("\"></script>");
                s
            },
            None => {
                let mut s = String::from_str("<script type=\"text/javascript\" src=\"");
                s.append(src.as_str());
                s.append("\"></script>");
                s
            },
        },
        None => match &ad.redirect_url {
            Some(url) => {
                let mut s = String::from_str("<a href=\"");
                s.append(url.as_str());
                s.append(
                    "\" target=\"_blank\" rel=\"sponsored noopener\" class=\"ad-link\">Patrocinado &rsaquo;</a>",
                );
                s
            },
            None => String::new(),
        },
    }
}

// ---------------------------------------------------------------------
// Laws of the ad choice
// ---------------------------------------------------------------------

/// No candidate has a NaN CPM.
pub open spec fn cpms_are_numbers(cands: Seq<(Seq<char>, Seq<char>, Seq<char>, u64)>) -> bool {
    forall|i: int| 0 <= i < cands.len() ==> !f64_is_nan(#[trigger] cands[i].3)
}

proof fn lemma_chosen_distinct(cands: Seq<(Seq<char>, Seq<char>, Seq<char>, u64)>)
    ensures
        forall|a: int, b: int|
            0 <= a < b < chosen(cands).len() ==> chosen(cands)[a].0 != chosen(cands)[b].0,
    decreases cands.len(),
{
    if cands.len() > 0 {
        let p = cands.drop_last();
        let prev = chosen(p);
        let c = cands.last();
        lemma_chosen_distinct(p);
        lemma_slot_position(prev, c.0);
        let cur = chosen(cands);
        assert forall|a: int, b: int| 0 <= a < b < cur.len() implies cur[a].0 != cur[b].0 by {
            if b == prev.len() {
                assert(cur[a].0 == prev[a].0);
            } else {
                assert(cur[a].0 == prev[a].0 && cur[b].0 == prev[b].0);
            }
        }
    }
}

proof fn lemma_chosen_covers(cands: Seq<(Seq<char>, Seq<char>, Seq<char>, u64)>)
    ensures
        forall|i: int|
            #![trigger cands[i]]
            0 <= i < cands.len() ==> exists|j: int|
                0 <= j < chosen(cands).len() && #[trigger] chosen(cands)[j].0 == cands[i].0,
    decreases cands.len(),
{
    if cands.len() > 0 {
        let p = cands.drop_last();
        let prev = chosen(p);
        let c = cands.last();
        let n = cands.len() - 1;
        lemma_chosen_covers(p);
        lemma_slot_position(prev, c.0);
        let j0 = slot_position(prev, c.0);
        let cur = chosen(cands);
        assert forall|i: int| #![trigger cands[i]] 0 <= i < cands.len() implies exists|j: int|
            0 <= j < cur.len() && #[trigger] cur[j].0 == cands[i].0 by {
            if i < n {
                assert(p[i] == cands[i]);
                let j = choose|j: int| 0 <= j < prev.len() && #[trigger] prev[j].0 == p[i].0;
                assert(cur[j].0 == prev[j].0);
            } else if j0 < prev.len() {
                assert(cur[j0].0 == c.0);
            } else {
                assert(cur[prev.len() as int].0 == c.0);
            }
        }
    }
}

proof fn lemma_chosen_from(cands: Seq<(Seq<char>, Seq<char>, Seq<char>, u64)>)
    ensures
        forall|j: int|
            #![trigger chosen(cands)[j]]
            0 <= j < chosen(cands).len() ==> exists|i: int|
                0 <= i < cands.len() && #[trigger] cands[i] == chosen(cands)[j],
    decreases cands.len(),
{
    if cands.len() > 0 {
        let p = cands.drop_last();
        let prev = chosen(p);
        let c = cands.last();
        let n = cands.len() - 1;
        lemma_chosen_from(p);
        lemma_slot_position(prev, c.0);
        let j0 = slot_position(prev, c.0);
        let cur = chosen(cands);
        assert(cur == if j0 < prev.len() {
            prev.update(j0, pick(prev[j0], c))
        } else {
            prev.push(c)
        });
        assert forall|j: int| #![trigger cur[j]] 0 <= j < cur.len() implies exists|i: int|
            0 <= i < cands.len() && #[trigger] cands[i] == cur[j] by {
            if j < prev.len() && cur[j] == prev[j] {
                let i = choose|i: int| 0 <= i < p.len() && #[trigger] p[i] == prev[j];
                assert(cands[i] == p[i]);
            } else {
                assert(cands[n] == cur[j]);
            }
        }
    }
}

#[verifier::rlimit(40)]
proof fn lemma_chosen_best(cands: Seq<(Seq<char>, Seq<char>, Seq<char>, u64)>)
    requires
        cpms_are_numbers(cands),
    ensures
        forall|i: int, j: int|
            0 <= i < cands.len() && 0 <= j < chosen(cands).len() && chosen(cands)[j].0
                == cands[i].0 ==> !cpm_greater(#[trigger] cands[i].3, #[trigger] chosen(cands)[j].3),
    decreases cands.len(),
{
    if cands.len() > 0 {
        let p = cands.drop_last();
        let prev = chosen(p);
        let c = cands.last();
        let n = cands.len() - 1;
        assert forall|i: int| 0 <= i < p.len() implies !f64_is_nan(#[trigger] p[i].3) by {
            assert(p[i] == cands[i]);
        }
        lemma_chosen_best(p);
        lemma_chosen_from(p);
        lemma_chosen_covers(p);
        lemma_slot_position(prev, c.0);
        let j0 = slot_position(prev, c.0);
        let cur = chosen(cands);
        assert(cur == if j0 < prev.len() {
            prev.update(j0, pick(prev[j0], c))
        } else {
            prev.push(c)
        });
        assert(!f64_is_nan(cands[n].3));
        assert forall|i: int, j: int|
            0 <= i < cands.len() && 0 <= j < cur.len() && cur[j].0 == cands[i].0 implies !cpm_greater(
            #[trigger] cands[i].3,
            #[trigger] cur[j].3,
        ) by {
            if j < prev.len() && j != j0 {
                if i < n {
                    assert(p[i] == cands[i]);
                    assert(cur[j] == prev[j]);
                } else {
                    if j > j0 {
                        lemma_chosen_distinct(p);
                        assert(prev[j0].0 != prev[j].0);
                    }
                    assert(prev[j].0 != c.0);
                }
            } else if j < prev.len() {
                assert(!f64_is_nan(prev[j].3)) by {
                    let q = choose|q: int| 0 <= q < p.len() && #[trigger] p[q] == prev[j];
                    assert(p[q] == cands[q]);
                }
                if i < n {
                    assert(p[i] == cands[i]);
                    assert(!cpm_greater(p[i].3, prev[j].3));
                }
            } else {
                if i < n {
                    assert(p[i] == cands[i]);
                    let q = choose|q: int| 0 <= q < prev.len() && #[trigger] prev[q].0 == p[i].0;
                    assert(prev[q].0 == c.0);
                    assert(false);
                }
            }
        }
    }
}

/// Every slot of the page gets exactly one ad: no slot is filled twice,
/// every slot that has a candidate is filled, and what fills it is one of
/// its candidates.
pub proof fn law_one_ad_per_slot(config: AdsConfig)
    ensures
        forall|a: int, b: int|
            0 <= a < b < chosen(candidates(config)).len() ==> chosen(candidates(config))[a].0
                != chosen(candidates(config))[b].0,
        forall|i: int|
            #![trigger candidates(config)[i]]
            0 <= i < candidates(config).len() ==> exists|j: int|
                0 <= j < chosen(candidates(config)).len() && #[trigger] chosen(
                    candidates(config),
                )[j].0 == candidates(config)[i].0,
        forall|j: int|
            #![trigger chosen(candidates(config))[j]]
            0 <= j < chosen(candidates(config)).len() ==> exists|i: int|
                0 <= i < candidates(config).len() && #[trigger] candidates(config)[i] == chosen(
                    candidates(config),
                )[j],
{
    lemma_chosen_distinct(candidates(config));
    lemma_chosen_covers(candidates(config));
    lemma_chosen_from(candidates(config));
}

/// Each slot shows its best-paying ad: when no CPM is NaN, no candidate
/// of a slot has a higher CPM than the ad chosen for it.
pub proof fn law_best_cpm_wins(config: AdsConfig)
    requires
        cpms_are_numbers(candidates(config)),
    ensures
        forall|i: int, j: int|
            0 <= i < candidates(config).len() && 0 <= j < chosen(candidates(config)).len()
                && chosen(candidates(config))[j].0 == candidates(config)[i].0 ==> !cpm_greater(
                #[trigger] candidates(config)[i].3,
                #[trigger] chosen(candidates(config))[j].3,
            ),
{
    lemma_chosen_best(candidates(config));
}


/// The ad rendered from the `k`-th house ad of the configuration.
pub open spec fn rendered_house(config: AdsConfig, k: int) -> (Seq<char>, Seq<char>, Seq<char>, u64) {
    (
        config.house@[k].slot@,
        "house"@,
        house_markup(config.house@[k]),
        match config.house@[k].cpm_bits {
            Some(b) => b,
            None => HOUSE_DEFAULT_CPM_BITS,
        },
    )
}

/// The ad rendered from the `k`-th Adsterra ad of the configuration.
pub open spec fn rendered_adsterra(config: AdsConfig, k: int) -> (Seq<char>, Seq<char>, Seq<char>, u64) {
    (
        config.adsterra@[k].slot@,
        "adsterra"@,
        adsterra_markup(config.adsterra@[k]),
        match config.adsterra@[k].cpm_bits {
            Some(b) => b,
            None => ADSTERRA_DEFAULT_CPM_BITS,
        },
    )
}

/// `r` is the rendering of a house ad or of an Adsterra ad of the configuration.
pub open spec fn is_rendered(config: AdsConfig, r: (Seq<char>, Seq<char>, Seq<char>, u64)) -> bool {
    ||| exists|k: int| 0 <= k < config.house@.len() && r == #[trigger] rendered_house(config, k)
    ||| exists|k: int| 0 <= k < config.adsterra@.len() && r == #[trigger] rendered_adsterra(config, k)
}

/// Every chosen ad is the rendering of a configured ad of its slot: a
/// house ad with its slot, the markup of `house_html` and its CPM (0.50 if
/// it states none), or an Adsterra ad with its slot, the markup of
/// `adsterra_html` and its CPM (1.00 if it states none).
pub proof fn law_chosen_ads_are_rendered(config: AdsConfig)
    ensures
        forall|j: int|
            0 <= j < chosen(candidates(config)).len() ==> is_rendered(
                config,
                #[trigger] chosen(candidates(config))[j],
            ),
{
    let cands = candidates(config);
    let nh = config.house@.len();
    lemma_chosen_from(cands);
    assert forall|j: int| 0 <= j < chosen(cands).len() implies is_rendered(
        config,
        #[trigger] chosen(cands)[j],
    ) by {
        let i = choose|i: int| 0 <= i < cands.len() && #[trigger] cands[i] == chosen(cands)[j];
        if i < nh {
            assert(cands[i] == rendered_house(config, i));
        } else {
            assert(cands[i] == rendered_adsterra(config, i - nh));
        }
    }
}

} // verus!
