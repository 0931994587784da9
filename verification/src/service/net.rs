//! Which hosts each desktop app may reach; an app without an allowlist is
//! kept offline.
use crate::ordered::TextMap;
use vstd::prelude::*;

verus! {

/// The hosts an app may reach over HTTP, WebSocket and TCP.
#[derive(Debug)]
pub struct NetPolicy {
    pub app_id: String,
    pub http_hosts: TextMap<()>,
    pub websocket_hosts: TextMap<()>,
    pub tcp_hosts: TextMap<()>,
    pub offline_only: bool,
}

/// What is known of a policy.
pub struct NetPolicyView {
    pub app_id: Seq<char>,
    pub http_hosts: Set<Seq<char>>,
    pub websocket_hosts: Set<Seq<char>>,
    pub tcp_hosts: Set<Seq<char>>,
    pub offline_only: bool,
}

impl NetPolicy {
    pub open spec fn wf(&self) -> bool {
        self.http_hosts.wf() && self.websocket_hosts.wf() && self.tcp_hosts.wf()
    }

    pub open spec fn view(&self) -> NetPolicyView {
        NetPolicyView {
            app_id: self.app_id@,
            http_hosts: self.http_hosts@.dom(),
            websocket_hosts: self.websocket_hosts@.dom(),
            tcp_hosts: self.tcp_hosts@.dom(),
            offline_only: self.offline_only,
        }
    }

    /// A copy of the policy.
    pub fn duplicate(&self) -> (p: Self)
        requires
            self.wf(),
        ensures
            p.wf(),
            p@ == self@,
    {
        NetPolicy {
            app_id: self.app_id.clone(),
            http_hosts: copy_hosts(&self.http_hosts),
            websocket_hosts: copy_hosts(&self.websocket_hosts),
            tcp_hosts: copy_hosts(&self.tcp_hosts),
            offline_only: self.offline_only,
        }
    }
}

/// The policy an app without an allowlist gets: no host, offline.
pub open spec fn offline_policy(app_id: Seq<char>) -> NetPolicyView {
    NetPolicyView {
        app_id,
        http_hosts: Set::empty(),
        websocket_hosts: Set::empty(),
        tcp_hosts: Set::empty(),
        offline_only: true,
    }
}

fn copy_hosts(m: &TextMap<()>) -> (r: TextMap<()>)
    requires
        m.wf(),
    ensures
        r.wf(),
        r@.dom() == m@.dom(),
{
    let mut r: TextMap<()> = TextMap::new();
    let mut i: usize = 0;
    proof {
        m.lemma_items();
    }
    while i < m.len()
        invariant
            i <= m.items().len(),
            m.wf(),
            r.wf(),
            forall|k: Seq<char>|
                #[trigger] r@.dom().contains(k) <==> exists|j: int|
                    0 <= j < i && m.items()[j].0@ == k,
        decreases m.items().len() - i,
    {
        let k = m.key_at(i).clone();
        r.insert(k, ());
        proof {
            assert forall|x: Seq<char>| #[trigger] r@.dom().contains(x) <==> exists|j: int|
                0 <= j < i + 1 && m.items()[j].0@ == x by {
                if x == m.items()[i as int].0@ {
                    assert(m.items()[i as int].0@ == x);
                }
            }
        }
        i = i + 1;
    }
    proof {
        m.lemma_items();
        assert forall|x: Seq<char>| #[trigger] r@.dom().contains(x) <==> m@.dom().contains(x) by {
            if r@.dom().contains(x) {
                let j = choose|j: int| 0 <= j < i && m.items()[j].0@ == x;
                assert(m.items()[j].0@ == x);
            }
        }
        assert(r@.dom() =~= m@.dom());
    }
    r
}

/// The allowlists, by app.
#[derive(Debug)]
pub struct NetManager {
    allowlists: TextMap<NetPolicy>,
}

impl NetManager {
    pub closed spec fn wf(&self) -> bool {
        &&& self.allowlists.wf()
        &&& forall|k: Seq<char>| #[trigger] self.allowlists@.dom().contains(k) ==> self.allowlists@[k].wf()
    }

    /// The allowlist of each app that has one.
    pub closed spec fn allowlists(&self) -> Map<Seq<char>, NetPolicyView> {
        self.allowlists@.map_values(|p: NetPolicy| p@)
    }

    /// A manager with no allowlist.
    pub fn new() -> (m: Self)
        ensures
            m.wf(),
            m.allowlists() == Map::<Seq<char>, NetPolicyView>::empty(),
    {
        let m = NetManager { allowlists: TextMap::new() };
        proof {
            assert(m.allowlists() =~= Map::<Seq<char>, NetPolicyView>::empty());
        }
        m
    }

    /// The policy of an app: its allowlist, or the offline policy.
    pub fn policy_for(&self, app_id: &str) -> (p: NetPolicy)
        requires
            self.wf(),
        ensures
            p.wf(),
            self.allowlists().dom().contains(app_id@) ==> p@ == self.allowlists()[app_id@],
            !self.allowlists().dom().contains(app_id@) ==> p@ == offline_policy(app_id@),
    {
        match self.allowlists.get(app_id) {
            Some(policy) => policy.duplicate(),
            None => {
                let p = NetPolicy {
                    app_id: app_id.to_string(),
                    http_hosts: TextMap::new(),
                    websocket_hosts: TextMap::new(),
                    tcp_hosts: TextMap::new(),
                    offline_only: true,
                };
                proof {
                    assert(p.http_hosts@.dom() =~= Set::<Seq<char>>::empty());
                    assert(p.websocket_hosts@.dom() =~= Set::<Seq<char>>::empty());
                    assert(p.tcp_hosts@.dom() =~= Set::<Seq<char>>::empty());
                }
                p
            },
        }
    }
}

} // verus!
