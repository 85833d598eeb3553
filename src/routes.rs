//! Route definitions, their validation and the stored configuration.

use vstd::prelude::*;
use crate::text::{chars_of, decimal, push_decimal, string_from_chars};

verus! {

broadcast use vstd::string::group_string_axioms;

/// How TLS material is obtained for a route.
#[derive(Debug, Clone)]
pub enum SslMode {
    SelfSigned,
    LetsEncrypt,
    Passthrough,
    Custom { cert_path: String, key_path: String },
}

/// What a route forwards: a domain name, or a local port.
#[derive(Debug, Clone)]
pub enum RouteType {
    Domain { domain: String, target_host: String, target_port: u16 },
    PortMapping { source_port: u16, target_host: String, target_port: u16 },
}

/// A user-declared forwarding intent.
#[derive(Debug, Clone)]
pub struct Route {
    pub id: String,
    pub route_type: RouteType,
    pub ssl_enabled: bool,
    pub ssl_mode: SslMode,
    pub enabled: bool,
    /// Creation time, in milliseconds since the Unix epoch (UTC).
    pub created_at: i64,
}

/// A route as submitted for creation, before it has an id and a timestamp.
#[derive(Debug, Clone)]
pub struct RouteInput {
    pub route_type: RouteType,
    pub ssl_enabled: bool,
    pub ssl_mode: SslMode,
    pub enabled: bool,
}

/// Settings of the external proxy binary kept in the stored configuration.
#[derive(Debug, Clone)]
pub struct TraefikConfig {
    pub binary_path: String,
    pub config_dir: String,
    pub log_level: String,
    pub dashboard_port: u16,
}

/// The stored configuration: a version tag, proxy settings and the routes.
#[derive(Debug, Clone)]
pub struct Config {
    pub version: String,
    pub traefik: TraefikConfig,
    pub routes: Vec<Route>,
}

/// Why a route was rejected.
#[derive(Debug, Clone, Copy, PartialEq, Eq, Structural)]
pub enum RouteError {
    EmptyDomain,
    EmptyTargetHost,
    InvalidDomainFormat,
    ZeroPort,
    SameLocalPort,
}

/// The host a route targets when none is given.
pub open spec fn spec_default_target_host() -> Seq<char> {
    "127.0.0.1"@
}

/// The TLS mode a route has when none is given.
pub fn default_ssl_mode() -> (r: SslMode)
    ensures
        r is SelfSigned,
{
    SslMode::SelfSigned
}

/// Whether a route is enabled when nothing is said.
pub fn default_enabled() -> (r: bool)
    ensures
        r,
{
    true
}

/// The host a route targets when none is given.
pub fn default_target_host() -> (r: String)
    ensures
        r@ == spec_default_target_host(),
{
    "127.0.0.1".to_string()
}

pub open spec fn is_ascii_alpha(c: char) -> bool {
    ('a' <= c && c <= 'z') || ('A' <= c && c <= 'Z')
}

pub open spec fn is_label_char(c: char) -> bool {
    is_ascii_alpha(c) || ('0' <= c && c <= '9') || c == '-'
}

/// The host-name grammar `([A-Za-z0-9-]+\.)*[A-Za-z0-9-]+\.[A-Za-z]{2,}`:
/// labels of letters, digits and hyphens separated by single dots, at least
/// two labels, and a last label of two or more ASCII letters.
pub open spec fn is_valid_domain(s: Seq<char>) -> bool {
    &&& s.len() > 0
    &&& s[0] != '.'
    &&& forall|i: int| 0 <= i < s.len() ==> is_label_char(#[trigger] s[i]) || s[i] == '.'
    &&& forall|i: int| 0 <= i < s.len() - 1 ==> !(#[trigger] s[i] == '.' && s[i + 1] == '.')
    &&& exists|k: int|
        0 <= k < s.len() - 2 && #[trigger] s[k] == '.' && forall|j: int|
            k < j < s.len() ==> is_ascii_alpha(#[trigger] s[j])
}

fn is_ascii_alpha_exec(c: char) -> (r: bool)
    ensures
        r == is_ascii_alpha(c),
{
    ('a' <= c && c <= 'z') || ('A' <= c && c <= 'Z')
}

fn is_label_char_exec(c: char) -> (r: bool)
    ensures
        r == is_label_char(c),
{
    is_ascii_alpha_exec(c) || ('0' <= c && c <= '9') || c == '-'
}

/// Whether `domain` is a well-formed host name.
pub fn check_domain(domain: &str) -> (r: bool)
    ensures
        r == is_valid_domain(domain@),
{
    let s = chars_of(domain);
    let n: usize = s.len();
    if n == 0 || s[0] == '.' {
        return false;
    }
    let mut last_dot: Option<usize> = None;
    let mut i: usize = 0;
    while i < n
        invariant
            n == s@.len(),
            s@ == domain@,
            i <= n,
            forall|t: int| 0 <= t < i ==> is_label_char(#[trigger] s@[t]) || s@[t] == '.',
            forall|t: int| 0 <= t < i - 1 ==> !(#[trigger] s@[t] == '.' && s@[t + 1] == '.'),
            match last_dot {
                Some(d) => d < i && s@[d as int] == '.' && forall|t: int|
                    d < t < i ==> #[trigger] s@[t] != '.',
                None => forall|t: int| 0 <= t < i ==> #[trigger] s@[t] != '.',
            },
        decreases n - i,
    {
        let c = s[i];
        if !(is_label_char_exec(c) || c == '.') {
            return false;
        }
        if c == '.' && i > 0 && s[i - 1] == '.' {
            assert(s@[i - 1] == '.' && s@[(i - 1) + 1] == '.');
            return false;
        }
        if c == '.' {
            last_dot = Some(i);
        }
        i += 1;
    }
    let k: usize = match last_dot {
        Some(d) => d,
        None => {
            assert(!is_valid_domain(domain@)) by {
                if is_valid_domain(domain@) {
                    let k = choose|k: int|
                        0 <= k < s@.len() - 2 && #[trigger] s@[k] == '.' && forall|j: int|
                            k < j < s@.len() ==> is_ascii_alpha(#[trigger] s@[j]);
                    assert(s@[k] != '.');
                }
            }
            return false;
        },
    };
    assert(k < n && s@[k as int] == '.' && forall|t: int| k < t < n ==> #[trigger] s@[t] != '.');
    if n - k <= 2 {
        assert(!is_valid_domain(domain@)) by {
            if is_valid_domain(domain@) {
                let w = choose|w: int|
                    0 <= w < s@.len() - 2 && #[trigger] s@[w] == '.' && forall|j: int|
                        w < j < s@.len() ==> is_ascii_alpha(#[trigger] s@[j]);
                if w < k {
                    assert(is_ascii_alpha(s@[k as int]));
                } else if w > k {
                    assert(s@[w] != '.');
                }
            }
        }
        return false;
    }
    let mut j: usize = k + 1;
    while j < n
        invariant
            n == s@.len(),
            s@ == domain@,
            s@[k as int] == '.',
            forall|t: int| k < t < n ==> #[trigger] s@[t] != '.',
            k < j <= n,
            forall|t: int| k < t < j ==> is_ascii_alpha(#[trigger] s@[t]),
        decreases n - j,
    {
        if !is_ascii_alpha_exec(s[j]) {
            assert(!is_valid_domain(domain@)) by {
                if is_valid_domain(domain@) {
                    let w = choose|w: int|
                        0 <= w < s@.len() - 2 && #[trigger] s@[w] == '.' && forall|t: int|
                            w < t < s@.len() ==> is_ascii_alpha(#[trigger] s@[t]);
                    if w < k {
                        assert(is_ascii_alpha(s@[k as int]));
                    } else if w > k {
                        assert(s@[w] != '.');
                    } else {
                        assert(is_ascii_alpha(s@[j as int]));
                    }
                }
            }
            return false;
        }
        j += 1;
    }
    assert(s@[k as int] == '.');
    true
}

/// The first problem found in a route, in the order the checks are made,
/// or `None` for a well-formed route.
pub open spec fn route_problem(rt: RouteType) -> Option<RouteError> {
    match rt {
        RouteType::Domain { domain, target_host, target_port } => {
            if domain@.len() == 0 {
                Some(RouteError::EmptyDomain)
            } else if target_host@.len() == 0 {
                Some(RouteError::EmptyTargetHost)
            } else if !is_valid_domain(domain@) {
                Some(RouteError::InvalidDomainFormat)
            } else if target_port == 0 {
                Some(RouteError::ZeroPort)
            } else {
                None
            }
        },
        RouteType::PortMapping { source_port, target_host, target_port } => {
            if source_port == 0 || target_port == 0 {
                Some(RouteError::ZeroPort)
            } else if target_host@.len() == 0 {
                Some(RouteError::EmptyTargetHost)
            } else if source_port == target_port && target_host@ == "localhost"@ {
                Some(RouteError::SameLocalPort)
            } else {
                None
            }
        },
    }
}

/// Relies on `uuid::Uuid::new_v4` and its `Display`: a fresh random id in
/// the hyphenated form of 36 characters.
#[verifier::external_body]
fn new_route_id() -> (r: String)
    ensures
        r@.len() == 36,
{
    uuid::Uuid::new_v4().to_string()
}

/// Relies on `chrono::Utc::now` and `DateTime::timestamp_millis`: the
/// current time in milliseconds since the Unix epoch.
#[verifier::external_body]
fn now_millis() -> (r: i64) {
    chrono::Utc::now().timestamp_millis()
}

/// The display name of a route: its domain, or
/// `localhost:<source> → <host>:<target>` for a port mapping.
pub open spec fn route_name(rt: RouteType) -> Seq<char> {
    match rt {
        RouteType::Domain { domain, .. } => domain@,
        RouteType::PortMapping { source_port, target_host, target_port } => "localhost:"@ + decimal(
            source_port as nat,
        ) + " → "@ + target_host@ + ":"@ + decimal(target_port as nat),
    }
}

impl RouteInput {
    /// Turns the input into a route with a fresh id and the current time.
    pub fn into_route(self) -> (r: Route)
        ensures
            r.route_type == self.route_type,
            r.ssl_enabled == self.ssl_enabled,
            r.ssl_mode == self.ssl_mode,
            r.enabled == self.enabled,
            r.id@.len() == 36,
    {
        Route {
            id: new_route_id(),
            route_type: self.route_type,
            ssl_enabled: self.ssl_enabled,
            ssl_mode: self.ssl_mode,
            enabled: self.enabled,
            created_at: now_millis(),
        }
    }
}

impl Route {
    /// An enabled, self-signed route for `domain`, targeting the default
    /// host on `target_port`.
    pub fn new_domain(domain: String, target_port: u16, ssl_enabled: bool) -> (r: Route)
        ensures
            r.route_type matches RouteType::Domain { domain: d, target_host: h, target_port: p }
                && d == domain && h@ == spec_default_target_host() && p == target_port,
            r.ssl_enabled == ssl_enabled,
            r.ssl_mode is SelfSigned,
            r.enabled,
            r.id@.len() == 36,
    {
        Route {
            id: new_route_id(),
            route_type: RouteType::Domain { domain, target_host: default_target_host(), target_port },
            ssl_enabled,
            ssl_mode: SslMode::SelfSigned,
            enabled: true,
            created_at: now_millis(),
        }
    }

    /// An enabled, self-signed mapping of local `source_port` to the default
    /// host on `target_port`.
    pub fn new_port_mapping(source_port: u16, target_port: u16, ssl_enabled: bool) -> (r: Route)
        ensures
            r.route_type matches RouteType::PortMapping {
                source_port: s,
                target_host: h,
                target_port: p,
            } && s == source_port && h@ == spec_default_target_host() && p == target_port,
            r.ssl_enabled == ssl_enabled,
            r.ssl_mode is SelfSigned,
            r.enabled,
            r.id@.len() == 36,
    {
        Route {
            id: new_route_id(),
            route_type: RouteType::PortMapping {
                source_port,
                target_host: default_target_host(),
                target_port,
            },
            ssl_enabled,
            ssl_mode: SslMode::SelfSigned,
            enabled: true,
            created_at: now_millis(),
        }
    }

    /// Checks the route's fields; the error names the first problem found.
    pub fn validate(&self) -> (r: Result<(), RouteError>)
        ensures
            r is Ok <==> route_problem(self.route_type) is None,
            r matches Err(e) ==> route_problem(self.route_type) == Some(e),
    {
        match &self.route_type {
            RouteType::Domain { domain, target_host, target_port } => {
                if domain.as_str().is_empty() {
                    return Err(RouteError::EmptyDomain);
                }
                if target_host.as_str().is_empty() {
                    return Err(RouteError::EmptyTargetHost);
                }
                if !check_domain(domain.as_str()) {
                    return Err(RouteError::InvalidDomainFormat);
                }
                if *target_port == 0 {
                    return Err(RouteError::ZeroPort);
                }
            },
            RouteType::PortMapping { source_port, target_host, target_port } => {
                if *source_port == 0 || *target_port == 0 {
                    return Err(RouteError::ZeroPort);
                }
                if target_host.as_str().is_empty() {
                    return Err(RouteError::EmptyTargetHost);
                }
                let localhost = "localhost".to_string();
                if *source_port == *target_port && *target_host == localhost {
                    return Err(RouteError::SameLocalPort);
                }
            },
        }
        Ok(())
    }

    /// The display name of the route.
    pub fn get_name(&self) -> (r: String)
        ensures
            r@ == route_name(self.route_type),
    {
        match &self.route_type {
            RouteType::Domain { domain, .. } => domain.clone(),
            RouteType::PortMapping { source_port, target_host, target_port } => {
                let mut out = chars_of("localhost:");
                push_decimal(&mut out, *source_port);
                let mut arrow = chars_of(" → ");
                out.append(&mut arrow);
                let mut host = chars_of(target_host.as_str());
                out.append(&mut host);
                let mut colon = chars_of(":");
                out.append(&mut colon);
                push_decimal(&mut out, *target_port);
                string_from_chars(&out)
            },
        }
    }
}

/// `base` followed by `tail`.
pub fn join_text(base: &str, tail: &str) -> (r: String)
    ensures
        r@ == base@ + tail@,
{
    let mut s = base.to_string();
    s.append(tail);
    s
}

/// The configuration directory under a home directory.
pub open spec fn spec_config_root(home: Seq<char>) -> Seq<char> {
    home + "/.config/domain-router"@
}

impl Config {
    /// The configuration used when none is stored, for the user whose home
    /// directory is `home`.
    pub fn default_for_home(home: &str) -> (r: Config)
        ensures
            r.version@ == "1.0.0"@,
            r.traefik.binary_path@ == "/usr/local/bin/traefik"@,
            r.traefik.config_dir@ == spec_config_root(home@) + "/traefik"@,
            r.traefik.log_level@ == "INFO"@,
            r.traefik.dashboard_port == 8080,
            r.routes@.len() == 0,
    {
        let root = join_text(home, "/.config/domain-router");
        Config {
            version: "1.0.0".to_string(),
            traefik: TraefikConfig {
                binary_path: "/usr/local/bin/traefik".to_string(),
                config_dir: join_text(root.as_str(), "/traefik"),
                log_level: "INFO".to_string(),
                dashboard_port: 8080,
            },
            routes: Vec::new(),
        }
    }

    /// Where the configuration is stored, for the user whose home directory
    /// is `home`.
    pub fn config_path(home: &str) -> (r: String)
        ensures
            r@ == spec_config_root(home@) + "/config.json"@,
    {
        let root = join_text(home, "/.config/domain-router");
        join_text(root.as_str(), "/config.json")
    }
}

} // verus!
