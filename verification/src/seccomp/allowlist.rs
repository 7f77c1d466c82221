//! The destinations that a sandbox may connect to.
use crate::seccomp::address::{IpAddr, Ipv4Addr, Ipv6Addr, SocketAddr};
use vstd::prelude::*;

verus! {

/// The addresses that a sandbox may always reach: its proxy and the two loopbacks.
pub open spec fn default_ips(proxy_addr: SocketAddr) -> Set<IpAddr> {
    set![
        proxy_addr.ip(),
        IpAddr::V4(Ipv4Addr { bits: 0x7F00_0001 }),
        IpAddr::V6(Ipv6Addr { bits: 1 }),
    ]
}

/// Where `allowed` are the allowed addresses, a connection to `ip` is.
pub open spec fn allows(allowed: Set<IpAddr>, ip: IpAddr) -> bool {
    allowed.contains(ip)
}

/// The addresses that are allowed once a domain has been resolved, where `allowed` were before.
pub open spec fn pinned<E>(
    allowed: Set<IpAddr>,
    resolved: Result<Vec<SocketAddr>, E>,
) -> Set<IpAddr> {
    match resolved {
        Ok(addrs) => allowed.union(addrs@.map_values(|addr: SocketAddr| addr.ip()).to_set()),
        Err(_) => allowed,
    }
}

/// A set of allowed destination addresses, pinned when the sandbox is created. Names
/// are resolved once, and what they resolved to then is what stays allowed.
///
/// A wildcard domain does not resolve, so nothing can be pinned for it.
#[derive(Debug)]
pub struct DnsPinnedAllowlist {
    allowed_ips: Vec<IpAddr>,
    proxy_addr: SocketAddr,
}

/// The allowed addresses. Where the proxy listens stands in `spec_proxy_addr`.
impl View for DnsPinnedAllowlist {
    type V = Set<IpAddr>;

    closed spec fn view(&self) -> Set<IpAddr> {
        self.allowed_ips@.to_set()
    }
}

impl Clone for DnsPinnedAllowlist {
    fn clone(&self) -> (r: Self)
        ensures
            r@ == self@,
            r.spec_proxy_addr() == self.spec_proxy_addr(),
    {
        proof {
            use_type_invariant(self);
        }
        let allowed_ips = self.allowed_ips.clone();
        assert(allowed_ips@ =~= self.allowed_ips@);
        DnsPinnedAllowlist { allowed_ips, proxy_addr: self.proxy_addr }
    }
}

impl DnsPinnedAllowlist {
    /// No address is listed twice, and the default addresses are listed.
    #[verifier::type_invariant]
    spec fn well_formed(self) -> bool {
        &&& self.allowed_ips@.no_duplicates()
        &&& default_ips(self.proxy_addr).subset_of(self.allowed_ips@.to_set())
    }

    pub closed spec fn spec_proxy_addr(&self) -> SocketAddr {
        self.proxy_addr
    }

    /// An allowlist of the default addresses alone.
    pub fn new(proxy_addr: SocketAddr) -> (r: Self)
        ensures
            r@ == default_ips(proxy_addr),
            r.spec_proxy_addr() == proxy_addr,
    {
        let v4 = IpAddr::V4(Ipv4Addr::localhost());
        let v6 = IpAddr::V6(Ipv6Addr::localhost());
        let mut allowed_ips: Vec<IpAddr> = Vec::new();
        pin(&mut allowed_ips, proxy_addr.ip());
        pin(&mut allowed_ips, v4);
        pin(&mut allowed_ips, v6);
        assert(allowed_ips@.to_set() =~= default_ips(proxy_addr));
        DnsPinnedAllowlist { allowed_ips, proxy_addr }
    }

    /// Pins the addresses that a domain resolved to. Gives how many there were, or
    /// the error that resolving it ended in.
    pub fn add_domain<E>(&mut self, resolved: Result<Vec<SocketAddr>, E>) -> (r: Result<usize, E>)
        ensures
            final(self).spec_proxy_addr() == old(self).spec_proxy_addr(),
            match resolved {
                Ok(addrs) => {
                    &&& r == Ok::<usize, E>(addrs@.len() as usize)
                    &&& final(self)@ == old(self)@.union(
                        addrs@.map_values(|addr: SocketAddr| addr.ip()).to_set(),
                    )
                },
                Err(e) => r == Err::<usize, E>(e) && final(self)@ == old(self)@,
            },
            final(self)@ == pinned(old(self)@, resolved),
    {
        proof {
            use_type_invariant(&*self);
        }
        match resolved {
            Err(e) => Err(e),
            Ok(addrs) => {
                let ghost ips = addrs@.map_values(|addr: SocketAddr| addr.ip());
                let ghost before = self.allowed_ips@.to_set();
                let mut allowed: Vec<IpAddr> = self.allowed_ips.clone();
                assert(allowed@ =~= self.allowed_ips@);
                assert(ips.take(0).to_set() =~= Set::<IpAddr>::empty());
                for i in 0..addrs.len()
                    invariant
                        ips == addrs@.map_values(|addr: SocketAddr| addr.ip()),
                        allowed@.no_duplicates(),
                        allowed@.to_set() =~= before.union(ips.take(i as int).to_set()),
                {
                    let ip = addrs[i].ip();
                    pin(&mut allowed, ip);
                    proof {
                        assert(ips.take(i + 1) =~= ips.take(i as int).push(ip));
                        lemma_push_to_set(ips.take(i as int), ip);
                    }
                }
                assert(ips.take(ips.len() as int) =~= ips);
                self.allowed_ips = allowed;
                Ok(addrs.len())
            },
        }
    }

    /// Whether `ip` is an allowed destination.
    pub fn is_allowed(&self, ip: &IpAddr) -> (r: bool)
        ensures
            r == self@.contains(*ip),
            r == allows(self@, *ip),
    {
        listed(&self.allowed_ips, *ip)
    }

    /// The address of the proxy, which is always allowed.
    pub fn proxy_addr(&self) -> (r: SocketAddr)
        ensures
            r == self.spec_proxy_addr(),
            self@.contains(r.ip()),
    {
        proof {
            use_type_invariant(self);
        }
        self.proxy_addr
    }

    /// The number of allowed addresses.
    pub fn len(&self) -> (r: usize)
        ensures
            self@.finite(),
            r == self@.len(),
    {
        proof {
            use_type_invariant(self);
            self.allowed_ips@.unique_seq_to_set();
        }
        self.allowed_ips.len()
    }

    /// Whether only the default addresses are allowed.
    pub fn is_empty(&self) -> (r: bool)
        ensures
            r == (self@ == default_ips(self.spec_proxy_addr())),
    {
        proof {
            use_type_invariant(self);
        }
        let ghost defaults = default_ips(self.proxy_addr);
        let proxy = self.proxy_addr.ip();
        let v4 = IpAddr::V4(Ipv4Addr::localhost());
        let v6 = IpAddr::V6(Ipv6Addr::localhost());
        for i in 0..self.allowed_ips.len()
            invariant
                defaults == default_ips(self.proxy_addr),
                proxy == self.proxy_addr.ip(),
                v4 == IpAddr::V4(Ipv4Addr { bits: 0x7F00_0001 }),
                v6 == IpAddr::V6(Ipv6Addr { bits: 1 }),
                forall|j: int| 0 <= j < i ==> defaults.contains(#[trigger] self.allowed_ips@[j]),
        {
            let ip = self.allowed_ips[i];
            if ip != proxy && ip != v4 && ip != v6 {
                assert(self.allowed_ips@.to_set().contains(ip));
                assert(!defaults.contains(ip));
                return false;
            }
        }
        assert(self.allowed_ips@.to_set() =~= defaults);
        true
    }
}

proof fn lemma_push_to_set(s: Seq<IpAddr>, ip: IpAddr)
    ensures
        s.push(ip).to_set() =~= s.to_set().insert(ip),
{
    assert forall|x: IpAddr| s.to_set().insert(ip).contains(x) implies s.push(
        ip,
    ).to_set().contains(x) by {
        if x == ip {
            assert(s.push(ip)[s.len() as int] == ip);
        } else {
            let i = choose|i: int| 0 <= i < s.len() && s[i] == x;
            assert(s.push(ip)[i] == x);
        }
    }
}

fn listed(ips: &Vec<IpAddr>, ip: IpAddr) -> (r: bool)
    ensures
        r == ips@.contains(ip),
{
    for i in 0..ips.len()
        invariant
            forall|j: int| 0 <= j < i ==> ips@[j] != ip,
    {
        if ips[i] == ip {
            return true;
        }
    }
    false
}

/// Lists `ip`, if it is not listed yet.
fn pin(ips: &mut Vec<IpAddr>, ip: IpAddr)
    requires
        old(ips)@.no_duplicates(),
    ensures
        final(ips)@.no_duplicates(),
        final(ips)@.to_set() =~= old(ips)@.to_set().insert(ip),
{
    if !listed(ips, ip) {
        proof {
            lemma_push_to_set(ips@, ip);
        }
        ips.push(ip);
    }
}

/// What is always allowed is the proxy, 127.0.0.1 and ::1, and nothing else.
pub proof fn proxy_and_loopback_are_allowed(proxy_addr: SocketAddr, ip: IpAddr)
    ensures
        default_ips(proxy_addr).contains(ip) <==> ip == proxy_addr.ip() || ip == IpAddr::V4(
            Ipv4Addr { bits: 0x7F00_0001 },
        ) || ip == IpAddr::V6(Ipv6Addr { bits: 1 }),
{
}

/// Pinning a domain allows what it resolved to, at whatever port, keeps what was allowed, and
/// allows nothing else.
pub proof fn pinning_allows_what_was_resolved(
    allowed: Set<IpAddr>,
    addrs: Vec<SocketAddr>,
    ip: IpAddr,
)
    ensures
        allows(pinned(allowed, Ok::<Vec<SocketAddr>, ()>(addrs)), ip) <==> allows(allowed, ip)
            || exists|i: int| 0 <= i < addrs@.len() && (#[trigger] addrs@[i]).ip() == ip,
{
    let ips = addrs@.map_values(|addr: SocketAddr| addr.ip());
    if exists|i: int| 0 <= i < addrs@.len() && (#[trigger] addrs@[i]).ip() == ip {
        let i = choose|i: int| 0 <= i < addrs@.len() && (#[trigger] addrs@[i]).ip() == ip;
        assert(ips[i] == ip);
        assert(ips.contains(ip));
    }
    if ips.to_set().contains(ip) {
        let i = choose|i: int| 0 <= i < ips.len() && ips[i] == ip;
        assert(addrs@[i].ip() == ip);
    }
}

/// A domain that does not resolve allows nothing.
pub proof fn unresolved_domains_allow_nothing(allowed: Set<IpAddr>, ip: IpAddr)
    ensures
        allows(pinned(allowed, Err::<Vec<SocketAddr>, ()>(())), ip) <==> allows(allowed, ip),
{
}

} // verus!
