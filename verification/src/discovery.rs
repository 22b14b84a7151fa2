//! Finding candidate devices on the local network: which addresses a subnet
//! sweep knocks on, how an answer is recognised as BirdUI, and how the hosts
//! found by the sweep and by the NDI service browse are merged into one list.

use vstd::prelude::*;

use crate::text::{
    chars_eq, chars_of, contains, decimal, decimal_string, lemma_lex_antisym, lemma_lex_total,
    lemma_lex_trans, lex_le, lex_le_chars, owned, push_str, str_contains, trim_end,
    trim_end_class, CharClass,
};

verus! {

/// A host found on the network.
#[derive(Clone, Debug)]
pub struct DiscoveredHost {
    pub name: String,
    pub host: String,
    pub port: u16,
}

pub struct DiscoveredHostView {
    pub name: Seq<char>,
    pub host: Seq<char>,
    pub port: u16,
}

impl View for DiscoveredHost {
    type V = DiscoveredHostView;

    open spec fn view(&self) -> DiscoveredHostView {
        DiscoveredHostView { name: self.name@, host: self.host@, port: self.port }
    }
}

impl DiscoveredHost {
    /// A copy of this entry.
    pub fn duplicate(&self) -> (r: Self)
        ensures
            r@ == self@,
    {
        DiscoveredHost { name: self.name.clone(), host: self.host.clone(), port: self.port }
    }
}

// ---------------------------------------------------------------------------
// Merging what the two mechanisms found
// ---------------------------------------------------------------------------

/// Strictly before, in the order of `String`.
pub open spec fn lex_lt(a: Seq<char>, b: Seq<char>) -> bool {
    lex_le(a, b) && a != b
}

/// Position `k` is the first in `all` that holds its host.
pub open spec fn first_of_host(all: Seq<DiscoveredHost>, k: int) -> bool {
    forall|m: int| 0 <= m < k ==> (#[trigger] all[m]).host@ != all[k].host@
}

/// `e` is the first entry for its host among the first `upto` of `all`.
pub open spec fn first_entry(all: Seq<DiscoveredHost>, upto: int, e: DiscoveredHost) -> bool {
    exists|k: int| 0 <= k < upto && first_of_host(all, k) && (#[trigger] all[k])@ == e@
}

/// Some entry of `s` is for host `h`.
pub open spec fn has_host(s: Seq<DiscoveredHost>, h: Seq<char>) -> bool {
    exists|a: int| 0 <= a < s.len() && (#[trigger] s[a]).host@ == h
}

/// Hosts in strictly ascending order.
pub open spec fn strictly_ascending(s: Seq<DiscoveredHost>) -> bool {
    forall|i: int, j: int| 0 <= i < j < s.len() ==> lex_lt(s[i].host@, s[j].host@)
}

/// `out` holds one entry per host of `all`: the first one found for it, in
/// strictly ascending order of host.
pub open spec fn merged_from(out: Seq<DiscoveredHost>, all: Seq<DiscoveredHost>) -> bool {
    &&& strictly_ascending(out)
    &&& forall|i: int| 0 <= i < out.len() ==> #[trigger] first_entry(all, all.len() as int, out[i])
    &&& forall|k: int| 0 <= k < all.len() ==> #[trigger] has_host(out, all[k].host@)
}

proof fn lemma_lex_lt_trans(a: Seq<char>, b: Seq<char>, c: Seq<char>)
    requires
        lex_lt(a, b),
        lex_lt(b, c),
    ensures
        lex_lt(a, c),
{
    lemma_lex_trans(a, b, c);
    if a == c {
        lemma_lex_antisym(a, b);
    }
}

/// A host that falls strictly between positions `p - 1` and `p` of an
/// ascending list is held by none of its entries.
proof fn lemma_host_absent(s: Seq<DiscoveredHost>, p: int, h: Seq<char>)
    requires
        strictly_ascending(s),
        0 <= p <= s.len(),
        forall|q: int| 0 <= q < p ==> lex_lt((#[trigger] s[q]).host@, h),
        p < s.len() ==> lex_lt(h, s[p].host@),
    ensures
        forall|a: int| 0 <= a < s.len() ==> (#[trigger] s[a]).host@ != h,
{
    assert forall|a: int| 0 <= a < s.len() implies (#[trigger] s[a]).host@ != h by {
        if a > p {
            lemma_lex_lt_trans(h, s[p].host@, s[a].host@);
        }
    }
}

/// Inserting such a host at `p` keeps the list ascending.
proof fn lemma_insert_ascending(s: Seq<DiscoveredHost>, p: int, x: DiscoveredHost)
    requires
        strictly_ascending(s),
        0 <= p <= s.len(),
        forall|q: int| 0 <= q < p ==> lex_lt((#[trigger] s[q]).host@, x.host@),
        p < s.len() ==> lex_lt(x.host@, s[p].host@),
    ensures
        strictly_ascending(s.insert(p, x)),
{
    let t = s.insert(p, x);
    assert forall|a: int, b: int| 0 <= a < b < t.len() implies lex_lt(t[a].host@, t[b].host@) by {
        if b < p {
        } else if b == p {
        } else if a < p {
            assert(t[b] == s[b - 1]);
            lemma_lex_lt_trans(s[a].host@, x.host@, s[p].host@);
            if b - 1 > p {
                lemma_lex_lt_trans(s[a].host@, s[p].host@, s[b - 1].host@);
            }
        } else if a == p {
            assert(t[b] == s[b - 1]);
            if b - 1 > p {
                lemma_lex_lt_trans(x.host@, s[p].host@, s[b - 1].host@);
            }
        } else {
            assert(t[a] == s[a - 1] && t[b] == s[b - 1]);
        }
    }
}

/// Where a host belongs in an ascending list: after every entry below it.
fn host_position(out: &Vec<DiscoveredHost>, h: &Vec<char>) -> (p: usize)
    ensures
        p <= out@.len(),
        forall|q: int| 0 <= q < p ==> lex_lt((#[trigger] out@[q]).host@, h@),
        p < out@.len() ==> lex_le(h@, out@[p as int].host@),
{
    let mut p: usize = 0;
    while p < out.len()
        invariant
            p <= out@.len(),
            forall|q: int| 0 <= q < p ==> lex_lt((#[trigger] out@[q]).host@, h@),
        decreases out.len() - p,
    {
        let c = chars_of(out[p].host.as_str());
        if !lex_le_chars(&c, h) || chars_eq(&c, h) {
            proof {
                lemma_lex_total(c@, h@);
            }
            return p;
        }
        p = p + 1;
    }
    p
}

/// One entry per host, in ascending order of host; where a host was found
/// more than once, the first entry for it is kept.
pub fn dedup_by_host(all: &Vec<DiscoveredHost>) -> (out: Vec<DiscoveredHost>)
    ensures
        merged_from(out@, all@),
{
    let mut out: Vec<DiscoveredHost> = Vec::new();
    let mut i: usize = 0;
    while i < all.len()
        invariant
            i <= all@.len(),
            strictly_ascending(out@),
            forall|a: int| 0 <= a < out@.len() ==> #[trigger] first_entry(all@, i as int, out@[a]),
            forall|k: int| 0 <= k < i ==> #[trigger] has_host(out@, all@[k].host@),
        decreases all.len() - i,
    {
        let h = chars_of(all[i].host.as_str());
        let ghost hv = all@[i as int].host@;
        let p = host_position(&out, &h);
        let ghost before = out@;
        if p < out.len() && chars_eq(&chars_of(out[p].host.as_str()), &h) {
            assert(out@[p as int].host@ == all@[i as int].host@);
            assert forall|a: int| 0 <= a < out@.len() implies #[trigger] first_entry(
                all@,
                i + 1,
                out@[a],
            ) by {
                assert(first_entry(all@, i as int, out@[a]));
            }
        } else {
            let x = all[i].duplicate();
            proof {
                lemma_host_absent(before, p as int, hv);
                assert forall|m: int| 0 <= m < i implies (#[trigger] all@[m]).host@ != hv by {
                    assert(has_host(before, all@[m].host@));
                    let a = choose|a: int|
                        0 <= a < before.len() && (#[trigger] before[a]).host@ == all@[m].host@;
                    assert(before[a].host@ != hv);
                }
                assert(first_of_host(all@, i as int));
                lemma_insert_ascending(before, p as int, x);
            }
            out.insert(p, x);
            proof {
                assert(out@ == before.insert(p as int, x));
                assert forall|a: int| 0 <= a < out@.len() implies #[trigger] first_entry(
                    all@,
                    i + 1,
                    out@[a],
                ) by {
                    if a < p {
                        assert(out@[a] == before[a]);
                        assert(first_entry(all@, i as int, before[a]));
                    } else if a == p {
                        assert(out@[a]@ == all@[i as int]@);
                    } else {
                        assert(out@[a] == before[a - 1]);
                        assert(first_entry(all@, i as int, before[a - 1]));
                    }
                }
            }
        }
        proof {
            assert forall|k: int| 0 <= k < i + 1 implies #[trigger] has_host(out@, all@[k].host@) by {
                if k == i {
                    assert(out@[p as int].host@ == all@[k].host@);
                } else if out@.len() != before.len() {
                    assert(has_host(before, all@[k].host@));
                    let a = choose|a: int|
                        0 <= a < before.len() && (#[trigger] before[a]).host@ == all@[k].host@;
                    if a < p {
                        assert(out@[a] == before[a]);
                    } else {
                        assert(out@[a + 1] == before[a]);
                    }
                }
            }
        }
        i = i + 1;
    }
    out
}

/// Merging is settled after one pass: a merged list merges to itself.
pub proof fn lemma_merge_settled(out: Seq<DiscoveredHost>, all: Seq<DiscoveredHost>)
    requires
        merged_from(out, all),
    ensures
        merged_from(out, out),
{
    assert forall|i: int| 0 <= i < out.len() implies #[trigger] first_entry(
        out,
        out.len() as int,
        out[i],
    ) by {
        assert forall|m: int| 0 <= m < i implies (#[trigger] out[m]).host@ != out[i].host@ by {
            assert(lex_lt(out[m].host@, out[i].host@));
        }
        assert(first_of_host(out, i));
    }
    assert forall|k: int| 0 <= k < out.len() implies #[trigger] has_host(out, out[k].host@) by {
        assert(out[k].host@ == out[k].host@);
    }
}

/// Merges the hosts found by the service browse with those found by the
/// sweep: one entry per host, ascending by host, the first found kept.
pub fn merge_hosts(browsed: Vec<DiscoveredHost>, swept: Vec<DiscoveredHost>) -> (out: Vec<
    DiscoveredHost,
>)
    ensures
        merged_from(out@, browsed@ + swept@),
{
    let mut all = browsed;
    let mut rest = swept;
    all.append(&mut rest);
    dedup_by_host(&all)
}

/// An entry for a resolved NDI service: its full name, its host name without
/// trailing dots, and its port.
pub fn host_from_service(fullname: &str, hostname: &str, port: u16) -> (h: DiscoveredHost)
    ensures
        h.name@ == fullname@,
        h.host@ == trim_end(hostname@, CharClass::Dot),
        h.port == port,
{
    DiscoveredHost {
        name: owned(fullname),
        host: trim_end_class(hostname, CharClass::Dot),
        port,
    }
}

// ---------------------------------------------------------------------------
// The subnet sweep
// ---------------------------------------------------------------------------

/// At most this many addresses are swept.
pub const MAX_HOSTS_TO_PROBE: usize = 512;

/// The cookie BirdUI sets on its front page, logged in or not.
pub open spec fn birdui_cookie() -> Seq<char> {
    "BirdDogSession"@
}

/// A network interface as the sweep sees it: whether it is the loopback
/// interface, and its IPv4 address and netmask if it has one.
#[derive(Clone, Copy, Debug)]
pub struct NetInterface {
    pub is_loopback: bool,
    pub ipv4: Option<(u32, u32)>,
}

/// Number of one bits.
pub open spec fn popcount(x: nat) -> nat
    decreases x,
{
    if x == 0 {
        0
    } else {
        x % 2 + popcount(x / 2)
    }
}

pub open spec fn two_pow(k: nat) -> nat
    decreases k,
{
    if k == 0 {
        1
    } else {
        2 * two_pow((k - 1) as nat)
    }
}

proof fn lemma_popcount_bound(x: nat, k: nat)
    requires
        x < two_pow(k),
    ensures
        popcount(x) <= k,
        popcount(x) <= x,
    decreases k,
{
    if k > 0 && x > 0 {
        lemma_popcount_bound(x / 2, (k - 1) as nat);
    }
}

/// `u32::count_ones`.
fn count_ones(x: u32) -> (n: u32)
    ensures
        n == popcount(x as nat),
        n <= 32,
{
    proof {
        assert(two_pow(32) == 0x1_0000_0000) by {
            reveal_with_fuel(two_pow, 33);
        }
        lemma_popcount_bound(x as nat, 32);
    }
    let mut n: u32 = 0;
    let mut v: u32 = x;
    while v > 0
        invariant
            n + popcount(v as nat) == popcount(x as nat),
            popcount(x as nat) <= 32,
        decreases v,
    {
        n = n + v % 2;
        v = v / 2;
    }
    n
}

/// Host bits of a netmask: those it leaves clear.
pub open spec fn host_bits(mask: u32) -> int {
    32 - popcount(mask as nat)
}

/// Every host address of the subnet of `ip`/`mask` (not the network nor the
/// broadcast address), or none where the subnet has no host bits or more
/// than ten (larger than a /22).
pub open spec fn subnet_hosts(ip: u32, mask: u32) -> Seq<u32> {
    let hb = host_bits(mask);
    if 1 <= hb <= 10 {
        let count = 1u32 << (hb as u32);
        Seq::new((count - 2) as nat, |k: int| (ip & mask) | ((k + 1) as u32))
    } else {
        Seq::empty()
    }
}

/// The addresses swept for one interface: none for the loopback interface
/// or one without IPv4.
pub open spec fn interface_hosts(f: NetInterface) -> Seq<u32> {
    if f.is_loopback {
        Seq::empty()
    } else {
        match f.ipv4 {
            None => Seq::empty(),
            Some((ip, mask)) => subnet_hosts(ip, mask),
        }
    }
}

/// The addresses of every interface, in order.
pub open spec fn all_interface_hosts(fs: Seq<NetInterface>) -> Seq<u32>
    decreases fs.len(),
{
    if fs.len() == 0 {
        Seq::empty()
    } else {
        all_interface_hosts(fs.drop_last()) + interface_hosts(fs.last())
    }
}

/// At most the first `MAX_HOSTS_TO_PROBE` of `s`.
pub open spec fn capped(s: Seq<u32>) -> Seq<u32> {
    if s.len() <= 512 {
        s
    } else {
        s.take(512)
    }
}

/// The addresses a sweep knocks on.
pub open spec fn sweep_addresses(fs: Seq<NetInterface>) -> Seq<u32> {
    capped(all_interface_hosts(fs))
}

/// Every non-loopback IPv4 host address on the directly attached subnets,
/// skipping subnets too large to sweep, at most `MAX_HOSTS_TO_PROBE` of them.
pub fn local_ipv4_candidates(interfaces: &Vec<NetInterface>) -> (out: Vec<u32>)
    ensures
        out@ == sweep_addresses(interfaces@),
{
    let mut out: Vec<u32> = Vec::new();
    let mut f: usize = 0;
    while f < interfaces.len()
        invariant
            f <= interfaces@.len(),
            out@ == capped(all_interface_hosts(interfaces@.take(f as int))),
        decreases interfaces.len() - f,
    {
        let ghost prev = all_interface_hosts(interfaces@.take(f as int));
        let ghost start = out@;
        let iface = interfaces[f];
        let ghost hosts = interface_hosts(iface);
        proof {
            assert(interfaces@.take(f + 1).drop_last() =~= interfaces@.take(f as int));
            assert(all_interface_hosts(interfaces@.take(f + 1)) == prev + hosts);
        }
        if !iface.is_loopback {
            if let Some((ip, mask)) = iface.ipv4 {
                let ones = count_ones(mask);
                let hb: u32 = 32 - ones;
                if 1 <= hb && hb <= 10 {
                    assert(1u32 <= hb && hb <= 10u32 ==> 2u32 <= (1u32 << hb) && (1u32 << hb)
                        <= 1024u32) by (bit_vector);
                    let count: u32 = 1u32 << hb;
                    let network: u32 = ip & mask;
                    assert(hosts == Seq::new(
                        (count - 2) as nat,
                        |k: int| (ip & mask) | ((k + 1) as u32),
                    ));
                    let mut i: u32 = 1;
                    while i < count - 1 && out.len() < MAX_HOSTS_TO_PROBE
                        invariant
                            2 <= count <= 1024,
                            1 <= i <= count - 1,
                            network == ip & mask,
                            hosts.len() == count - 2,
                            forall|k: int| 0 <= k < hosts.len() ==> #[trigger] hosts[k] == (ip & mask) | ((k + 1) as u32),
                            out@ == start + hosts.take(i - 1),
                            out@.len() <= 512,
                        decreases count - i,
                    {
                        out.push(network | i);
                        proof {
                            assert(hosts[i - 1] == (ip & mask) | (i as u32));
                            assert(hosts.take(i as int) =~= hosts.take(i - 1).push(hosts[i - 1]));
                        }
                        i = i + 1;
                    }
                    proof {
                        if i == count - 1 {
                            assert(hosts.take(i - 1) =~= hosts);
                            if prev.len() > 512 {
                                assert(out@ =~= start);
                                assert(hosts.len() == 0);
                                assert(prev + hosts =~= prev);
                            } else {
                                assert(start == prev);
                            }
                        } else {
                            assert(out@.len() == 512);
                            if prev.len() >= 512 {
                                assert(start =~= prev.take(512));
                                assert(out@ =~= (prev + hosts).take(512));
                            } else {
                                assert(out@ =~= (prev + hosts).take(512));
                            }
                        }
                    }
                } else {
                    assert(hosts =~= Seq::<u32>::empty());
                    assert(prev + hosts =~= prev);
                }
            } else {
                assert(prev + hosts =~= prev);
            }
        } else {
            assert(prev + hosts =~= prev);
        }
        f = f + 1;
    }
    assert(interfaces@.take(interfaces@.len() as int) =~= interfaces@);
    out
}

/// The four octets of an address, most significant first.
pub open spec fn octet(ip: u32, k: int) -> nat {
    ((ip >> ((3 - k) * 8) as u32) & 0xff) as nat
}

/// Dotted-decimal form of an IPv4 address (`Ipv4Addr`'s `Display`).
pub open spec fn dotted(ip: u32) -> Seq<char> {
    decimal(octet(ip, 0)) + "."@ + decimal(octet(ip, 1)) + "."@ + decimal(octet(ip, 2)) + "."@
        + decimal(octet(ip, 3))
}

/// The dotted-decimal form of an IPv4 address.
pub fn ipv4_text(ip: u32) -> (s: String)
    ensures
        s@ == dotted(ip),
{
    let mut s = decimal_string(((ip >> 24u32) & 0xffu32) as u64);
    push_str(&mut s, ".");
    let b = decimal_string(((ip >> 16u32) & 0xffu32) as u64);
    push_str(&mut s, b.as_str());
    push_str(&mut s, ".");
    let c = decimal_string(((ip >> 8u32) & 0xffu32) as u64);
    push_str(&mut s, c.as_str());
    push_str(&mut s, ".");
    let d = decimal_string((ip & 0xffu32) as u64);
    push_str(&mut s, d.as_str());
    proof {
        assert(ip >> 0u32 == ip) by (bit_vector);
        assert(s@ =~= dotted(ip));
    }
    s
}

/// The page a sweep requests from an address: `http://<ip>/`.
pub fn probe_url(ip: u32) -> (u: String)
    ensures
        u@ == "http://"@ + dotted(ip) + "/"@,
{
    let mut u = owned("http://");
    let t = ipv4_text(ip);
    push_str(&mut u, t.as_str());
    push_str(&mut u, "/");
    u
}

/// A `Set-Cookie` value, where readable as text, that names the BirdUI
/// session cookie.
pub open spec fn names_birdui(value: Option<String>) -> bool {
    match value {
        Some(v) => contains(v@, birdui_cookie()),
        None => false,
    }
}

/// Whether a front-page answer is BirdUI's: one of its `Set-Cookie` values
/// (those readable as text) names the BirdUI session cookie.
pub fn is_birdui_response(set_cookies: &Vec<Option<String>>) -> (r: bool)
    ensures
        r == exists|i: int| 0 <= i < set_cookies@.len() && names_birdui(#[trigger] set_cookies@[i]),
{
    let mut i: usize = 0;
    while i < set_cookies.len()
        invariant
            i <= set_cookies@.len(),
            forall|j: int| 0 <= j < i ==> !names_birdui(#[trigger] set_cookies@[j]),
        decreases set_cookies.len() - i,
    {
        if let Some(v) = &set_cookies[i] {
            if str_contains(v.as_str(), "BirdDogSession") {
                return true;
            }
        }
        i = i + 1;
    }
    false
}

/// The entry for an address that answered as BirdUI: named by its address,
/// on port 80.
pub fn swept_host(ip: u32) -> (h: DiscoveredHost)
    ensures
        h.name@ == dotted(ip),
        h.host@ == dotted(ip),
        h.port == 80,
{
    DiscoveredHost { name: ipv4_text(ip), host: ipv4_text(ip), port: 80 }
}

} // verus!
