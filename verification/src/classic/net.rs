//! The URL gate of the first runtime: one policy for the whole system,
//! checked against the scheme and the host of each URL.
use crate::network::{UrlParts, parse_url, url_parts};
use crate::ordered::TextMap;
use crate::text::text_eq;
use vstd::prelude::*;

verus! {

/// Which kinds of connection are allowed, and to which hosts (all hosts when
/// the set is empty).
#[derive(Debug)]
pub struct NetworkPolicy {
    pub allow_http: bool,
    pub allow_websocket: bool,
    pub allow_tcp: bool,
    pub allowed_hosts: TextMap<()>,
}

impl NetworkPolicy {
    /// The hosts that the policy names.
    pub open spec fn hosts(&self) -> Set<Seq<char>> {
        self.allowed_hosts@.dom()
    }
}

impl Default for NetworkPolicy {
    /// HTTP only, to any host.
    fn default() -> (p: Self)
        ensures
            p.allow_http,
            !p.allow_websocket,
            !p.allow_tcp,
            p.allowed_hosts.wf(),
            p.hosts() == Set::<Seq<char>>::empty(),
    {
        let hosts = TextMap::new();
        proof {
            assert(hosts@.dom() =~= Set::<Seq<char>>::empty());
        }
        NetworkPolicy { allow_http: true, allow_websocket: false, allow_tcp: false, allowed_hosts: hosts }
    }
}

/// Why a URL was refused.
#[derive(Debug)]
pub enum UrlRefusal {
    Unparsable(url::ParseError),
    SchemeBlocked,
    HostBlocked,
}

/// Whether the policy lets a URL with this scheme through.
pub open spec fn scheme_allowed(p: NetworkPolicy, scheme: Seq<char>) -> bool {
    ||| (scheme == "http"@ || scheme == "https"@) && p.allow_http
    ||| (scheme == "ws"@ || scheme == "wss"@) && p.allow_websocket
    ||| scheme == "tcp"@ && p.allow_tcp
}

/// Whether the policy lets a URL with this host (empty when it has none)
/// through.
pub open spec fn host_allowed(p: NetworkPolicy, host: Option<Seq<char>>) -> bool {
    let h = match host {
        Some(h) => h,
        None => Seq::empty(),
    };
    p.hosts().len() == 0 || p.hosts().contains(h)
}

/// The policy holder.
#[derive(Debug)]
pub struct NetworkController {
    policy: NetworkPolicy,
}

impl NetworkController {
    pub closed spec fn wf(&self) -> bool {
        self.policy.allowed_hosts.wf()
    }

    /// The policy in force.
    pub closed spec fn current(&self) -> NetworkPolicy {
        self.policy
    }

    /// A controller with the default policy.
    pub fn new() -> (c: Self)
        ensures
            c.wf(),
            c.current().allow_http,
            !c.current().allow_websocket,
            !c.current().allow_tcp,
            c.current().hosts() == Set::<Seq<char>>::empty(),
    {
        NetworkController { policy: NetworkPolicy::default() }
    }

    /// Replaces the policy.
    pub fn set_policy(&mut self, policy: NetworkPolicy)
        requires
            policy.allowed_hosts.wf(),
        ensures
            final(self).wf(),
            final(self).current() == policy,
    {
        self.policy = policy;
    }

    /// Parses a URL and lets it through when the policy allows its scheme
    /// and its host.
    pub fn authorize_url(&self, raw: &str) -> (r: Result<UrlParts, UrlRefusal>)
        requires
            self.wf(),
        ensures
            match url_parts(raw@) {
                None => r matches Err(UrlRefusal::Unparsable(_)),
                Some((href, scheme, host)) => if !scheme_allowed(self.current(), scheme) {
                    r matches Err(UrlRefusal::SchemeBlocked)
                } else if !host_allowed(self.current(), host) {
                    r matches Err(UrlRefusal::HostBlocked)
                } else {
                    r matches Ok(u) && u@ == (href, scheme, host)
                },
            },
    {
        let url = match parse_url(raw) {
            Ok(url) => url,
            Err(error) => {
                return Err(UrlRefusal::Unparsable(error));
            },
        };
        let scheme = url.scheme.as_str();
        let policy = &self.policy;
        let allowed = ((text_eq(scheme, "http") || text_eq(scheme, "https")) && policy.allow_http)
            || ((text_eq(scheme, "ws") || text_eq(scheme, "wss")) && policy.allow_websocket) || (
        text_eq(scheme, "tcp") && policy.allow_tcp);
        if !allowed {
            return Err(UrlRefusal::SchemeBlocked);
        }
        let listed = match &url.host {
            Some(h) => policy.allowed_hosts.contains_key(h.as_str()),
            None => {
                proof {
                    reveal_strlit("");
                    assert(""@ =~= Seq::<char>::empty());
                }
                policy.allowed_hosts.contains_key("")
            },
        };
        if policy.allowed_hosts.len() != 0 && !listed {
            return Err(UrlRefusal::HostBlocked);
        }
        Ok(url)
    }
}

} // verus!
