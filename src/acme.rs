//! Settings kept for a future ACME (Let's Encrypt) certificate source.

use vstd::prelude::*;
use crate::routes::join_text;

verus! {

broadcast use vstd::string::group_string_axioms;

/// The ACME cache directory and account settings.
pub struct AcmeManager {
    cache_dir: String,
    email: String,
    use_staging: bool,
}

/// Why an ACME manager could not be set up.
#[derive(Debug, Clone, Copy, PartialEq, Eq, Structural)]
pub enum AcmeError {
    /// The platform reports no configuration directory.
    NoConfigDir,
}

/// Relies on `dirs::config_dir`: the platform's configuration directory,
/// which depends on the environment, as lossy UTF-8 text.
#[verifier::external_body]
fn platform_config_dir() -> (r: Option<String>) {
    dirs::config_dir().map(|p| p.to_string_lossy().into_owned())
}

/// Relies on `std::path::Path::exists`: whether something is at the path
/// now, which depends on the disk.
#[verifier::external_body]
fn path_exists(path: &str) -> (r: bool) {
    std::path::Path::new(path).exists()
}

/// The ACME cache directory under a configuration directory.
pub open spec fn spec_acme_cache_dir(config_dir: Seq<char>) -> Seq<char> {
    config_dir + "/domain-router/acme"@
}

impl AcmeManager {
    /// A manager whose cache lies under the platform's configuration
    /// directory; fails when the platform reports none. The caller creates
    /// the directory.
    pub fn new(email: String, use_staging: bool) -> (r: Result<AcmeManager, AcmeError>)
        ensures
            r matches Ok(m) ==> m.spec_email() == email@ && m.spec_is_staging() == use_staging,
    {
        match platform_config_dir() {
            Some(dir) => Ok(AcmeManager::with_config_dir(dir.as_str(), email, use_staging)),
            None => Err(AcmeError::NoConfigDir),
        }
    }

    /// A manager whose cache lies under `config_dir`.
    pub fn with_config_dir(config_dir: &str, email: String, use_staging: bool) -> (r: AcmeManager)
        ensures
            r.spec_cache_dir() == spec_acme_cache_dir(config_dir@),
            r.spec_email() == email@,
            r.spec_is_staging() == use_staging,
    {
        AcmeManager {
            cache_dir: join_text(config_dir, "/domain-router/acme"),
            email,
            use_staging,
        }
    }

    pub closed spec fn spec_cache_dir(&self) -> Seq<char> {
        self.cache_dir@
    }

    pub closed spec fn spec_email(&self) -> Seq<char> {
        self.email@
    }

    pub closed spec fn spec_is_staging(&self) -> bool {
        self.use_staging
    }

    /// Where a cached certificate of `domain` is kept: `<cache>/<domain>.pem`.
    pub fn cached_certificate_path(&self, domain: &str) -> (r: String)
        ensures
            r@ == self.spec_cache_dir() + "/"@ + domain@ + ".pem"@,
    {
        let dir = join_text(self.cache_dir.as_str(), "/");
        let base = join_text(dir.as_str(), domain);
        join_text(base.as_str(), ".pem")
    }

    /// Whether a certificate of `domain` is in the cache now.
    pub fn has_cached_certificate(&self, domain: &str) -> (r: bool) {
        let path = self.cached_certificate_path(domain);
        path_exists(path.as_str())
    }

    /// The cache directory.
    pub fn cache_dir(&self) -> (r: &String)
        ensures
            r@ == self.spec_cache_dir(),
    {
        &self.cache_dir
    }

    /// The account email.
    pub fn email(&self) -> (r: &str)
        ensures
            r@ == self.spec_email(),
    {
        self.email.as_str()
    }

    /// Whether the staging server is used.
    pub fn is_staging(&self) -> (r: bool)
        ensures
            r == self.spec_is_staging(),
    {
        self.use_staging
    }
}

/// What a certificate request asks for.
#[derive(Debug, Clone)]
pub struct LetsEncryptConfig {
    /// Contact email.
    pub email: String,
    /// Domains to be covered.
    pub domains: Vec<String>,
    /// Whether the staging server is used.
    pub use_staging: bool,
}

impl LetsEncryptConfig {
    pub fn new(email: String, domains: Vec<String>, use_staging: bool) -> (r: LetsEncryptConfig)
        ensures
            r.email == email,
            r.domains == domains,
            r.use_staging == use_staging,
    {
        LetsEncryptConfig { email, domains, use_staging }
    }
}

} // verus!
