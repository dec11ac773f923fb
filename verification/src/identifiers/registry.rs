//! The set of identification providers built from the configuration.

use vstd::prelude::*;
use crate::config::{AcoustIdConfig, AcrCloudConfig, Config, ShazamConfig};
use crate::identifiers::acoustid::AcoustIdIdentifier;
use crate::identifiers::acrcloud::AcrCloudIdentifier;
use crate::identifiers::shazam::ShazamIdentifier;

verus! {

/// One identification provider.
pub enum Backend {
    Shazam(ShazamIdentifier),
    AcoustId(AcoustIdIdentifier),
    AcrCloud(AcrCloudIdentifier),
}

/// The name of a provider.
pub open spec fn backend_name(b: Backend) -> Seq<char> {
    match b {
        Backend::Shazam(_) => "shazam"@,
        Backend::AcoustId(_) => "acoustid"@,
        Backend::AcrCloud(_) => "acrcloud"@,
    }
}

/// Whether a provider can be used.
pub open spec fn backend_enabled(b: Backend) -> bool {
    match b {
        Backend::Shazam(_) => true,
        Backend::AcoustId(a) => a.config.api_key@.len() > 0,
        Backend::AcrCloud(a) => a.config.access_key@.len() > 0 && a.config.access_secret@.len()
            > 0 && a.config.host@.len() > 0,
    }
}

impl Backend {
    /// The provider's name.
    pub fn name(&self) -> (n: &'static str)
        ensures
            n@ == backend_name(*self),
    {
        match self {
            Backend::Shazam(s) => s.name(),
            Backend::AcoustId(a) => a.name(),
            Backend::AcrCloud(a) => a.name(),
        }
    }

    /// Whether the provider can be used.
    pub fn enabled(&self) -> (b: bool)
        ensures
            b == backend_enabled(*self),
    {
        match self {
            Backend::Shazam(s) => s.enabled(),
            Backend::AcoustId(a) => a.enabled(),
            Backend::AcrCloud(a) => a.enabled(),
        }
    }
}

/// The configured providers, in order.
pub struct IdentifierRegistry {
    pub backends: Vec<Backend>,
}

/// The kinds of the providers built from a configuration: Shazam, AcoustID
/// and ACRCloud where configured, in that order, and Shazam alone when
/// none is.
pub open spec fn backend_kinds(c: Config) -> Seq<Seq<char>> {
    let listed = (if c.shazam is Some { seq!["shazam"@] } else { Seq::empty() }) + (
    if c.acoustid is Some {
        seq!["acoustid"@]
    } else {
        Seq::empty()
    }) + (if c.acrcloud is Some {
        seq!["acrcloud"@]
    } else {
        Seq::empty()
    });
    if listed.len() == 0 {
        seq!["shazam"@]
    } else {
        listed
    }
}

fn copy_acoustid(c: &AcoustIdConfig) -> (r: AcoustIdConfig)
    ensures
        r == *c,
{
    AcoustIdConfig {
        url: c.url.clone(),
        api_key: c.api_key.clone(),
        fpcalc_path: c.fpcalc_path.clone(),
    }
}

fn copy_acrcloud(c: &AcrCloudConfig) -> (r: AcrCloudConfig)
    ensures
        r == *c,
{
    AcrCloudConfig {
        host: c.host.clone(),
        access_key: c.access_key.clone(),
        access_secret: c.access_secret.clone(),
    }
}

/// The names of the enabled providers among `bs`, in order.
pub open spec fn enabled_names(bs: Seq<Backend>) -> Seq<Seq<char>>
    decreases bs.len(),
{
    if bs.len() == 0 {
        Seq::empty()
    } else if backend_enabled(bs.last()) {
        enabled_names(bs.drop_last()).push(backend_name(bs.last()))
    } else {
        enabled_names(bs.drop_last())
    }
}

impl IdentifierRegistry {
    /// The providers of a configuration; the AcoustID and ACRCloud
    /// providers carry their sections of it.
    pub fn from_config(config: &Config) -> (r: Self)
        ensures
            r.backends@.map_values(|b: Backend| backend_name(b)) == backend_kinds(*config),
            forall|i: int|
                0 <= i < r.backends@.len() ==> match #[trigger] r.backends@[i] {
                    Backend::AcoustId(a) => config.acoustid == Some(a.config),
                    Backend::AcrCloud(a) => config.acrcloud == Some(a.config),
                    Backend::Shazam(_) => true,
                },
    {
        let mut backends: Vec<Backend> = Vec::new();
        if config.shazam.is_some() {
            backends.push(Backend::Shazam(ShazamIdentifier::new(ShazamConfig {  })));
        }
        match &config.acoustid {
            Some(a) => backends.push(Backend::AcoustId(AcoustIdIdentifier::new(copy_acoustid(a)))),
            None => {},
        }
        match &config.acrcloud {
            Some(a) => backends.push(Backend::AcrCloud(AcrCloudIdentifier::new(copy_acrcloud(a)))),
            None => {},
        }
        if backends.len() == 0 {
            backends.push(Backend::Shazam(ShazamIdentifier::new(ShazamConfig {  })));
        }
        assert(backends@.map_values(|b: Backend| backend_name(b)) =~= backend_kinds(*config));
        IdentifierRegistry { backends }
    }

    /// The names of the enabled providers, in order.
    pub fn enabled_backends(&self) -> (v: Vec<&'static str>)
        ensures
            v@.map_values(|s: &'static str| s@) == enabled_names(self.backends@),
    {
        let mut v: Vec<&'static str> = Vec::new();
        let mut i: usize = 0;
        while i < self.backends.len()
            invariant
                i <= self.backends@.len(),
                v@.map_values(|s: &'static str| s@) == enabled_names(self.backends@.take(i as int)),
            decreases self.backends@.len() - i,
        {
            assert(self.backends@.take(i + 1).drop_last() =~= self.backends@.take(i as int));
            if self.backends[i].enabled() {
                let ghost before = v@;
                v.push(self.backends[i].name());
                assert(v@.map_values(|s: &'static str| s@) =~= before.map_values(
                    |s: &'static str| s@,
                ).push(backend_name(self.backends@[i as int])));
            }
            i = i + 1;
        }
        assert(self.backends@.take(self.backends@.len() as int) =~= self.backends@);
        v
    }
}

/// There is always a provider, and without AcoustID and ACRCloud settings
/// Shazam is the one used.
pub proof fn law_shazam_is_the_fallback(config: Config)
    ensures
        backend_kinds(config).len() >= 1,
        config.acoustid is None && config.acrcloud is None ==> backend_kinds(config) == seq![
            "shazam"@,
        ],
{
    if config.acoustid is None && config.acrcloud is None {
        assert(backend_kinds(config) =~= seq!["shazam"@]);
    }
}

} // verus!
