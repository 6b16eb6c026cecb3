//! Addresses and CIDR networks.
use vstd::arithmetic::div_mod::{lemma_basic_div, lemma_fundamental_div_mod, lemma_mod_bound};
use vstd::arithmetic::power2::{lemma2_to64, lemma_pow2_adds, lemma_pow2_pos, pow2};
use vstd::prelude::*;

verus! {

/// An IP address as the number that its bits write, most significant bit first.
#[derive(Clone, Copy, Debug, PartialEq, Eq, Structural)]
pub enum IpAddr {
    V4(u32),
    V6(u128),
}

/// An IP address and a port.
#[derive(Clone, Copy, Debug, PartialEq, Eq, Structural)]
pub struct SocketAddr {
    pub ip: IpAddr,
    pub port: u16,
    /// The flow information of an IPv6 address, zero for IPv4.
    pub flowinfo: u32,
    /// The interface that a link-local IPv6 address belongs to, zero for any other address.
    pub scope_id: u32,
}

/// A network in CIDR notation: an address and the number of its leading bits that count.
///
/// The prefix is never longer than the address.
#[derive(Clone, Copy, Debug, PartialEq, Eq, Structural)]
pub struct IpNet {
    addr: IpAddr,
    prefix_len: u8,
}

/// The number of bits in addresses of the family of `ip`.
pub open spec fn address_bits(ip: IpAddr) -> nat {
    match ip {
        IpAddr::V4(_) => 32,
        IpAddr::V6(_) => 128,
    }
}

/// Whether two numbers of `bits` bits agree on their first `prefix_len` bits.
pub open spec fn same_prefix(a: nat, b: nat, bits: nat, prefix_len: nat) -> bool {
    let block = pow2((bits - prefix_len) as nat);
    a / block == b / block
}

/// Whether `ip` lies in the network of the addresses that share the first `prefix_len` bits
/// with `addr`. An address of the other family never does.
pub open spec fn in_network(addr: IpAddr, prefix_len: nat, ip: IpAddr) -> bool {
    match (addr, ip) {
        (IpAddr::V4(a), IpAddr::V4(b)) => same_prefix(a as nat, b as nat, 32, prefix_len),
        (IpAddr::V6(a), IpAddr::V6(b)) => same_prefix(a as nat, b as nat, 128, prefix_len),
        _ => false,
    }
}

/// The address that a text writes, as the standard library's `FromStr` for IP addresses
/// reads it: dotted decimal for IPv4, the usual notations of IPv6, nothing around them.
pub uninterp spec fn parsed_ip(text: Seq<u8>) -> Option<IpAddr>;

/// The text of an address, as the standard library's `Display` for IP addresses writes it.
pub uninterp spec fn ip_text(ip: IpAddr) -> Seq<u8>;

/// Calls `FromStr` of the standard library's IP address (whose type is inferred from the
/// parameter of `ipnet::IpNet::new`). Claims that the result is a function of the text;
/// which texts are addresses is left to the standard library.
#[verifier::external_body]
pub(crate) fn parse_ip(text: &[u8]) -> (ip: Option<IpAddr>)
    ensures
        ip == parsed_ip(text@),
{
    let text = std::str::from_utf8(text).ok()?;
    match ipnet::IpNet::new(text.parse().ok()?, 0).ok()? {
        ipnet::IpNet::V4(net) => Some(IpAddr::V4(u32::from(net.addr()))),
        ipnet::IpNet::V6(net) => Some(IpAddr::V6(u128::from(net.addr()))),
    }
}

/// Calls `Display` of the standard library's IP address (obtained from an `ipnet` host
/// network). Claims that the text is a function of the address.
#[verifier::external_body]
pub(crate) fn format_ip(ip: IpAddr) -> (text: Vec<u8>)
    ensures
        text@ == ip_text(ip),
{
    match ip {
        IpAddr::V4(bits) => ipnet::Ipv4Net::new_assert(bits.into(), 32).addr().to_string(),
        IpAddr::V6(bits) => ipnet::Ipv6Net::new_assert(bits.into(), 128).addr().to_string(),
    }.into_bytes()
}

/// Calls `ipnet::IpNet::contains` with an address. Claims that the address is contained
/// when it is of the network's family and agrees with the network's address on the
/// prefix. `ipnet` panics on a prefix longer than the address.
#[verifier::external_body]
fn network_contains(addr: IpAddr, prefix_len: u8, ip: IpAddr) -> (inside: bool)
    requires
        prefix_len <= address_bits(addr),
    ensures
        inside == in_network(addr, prefix_len as nat, ip),
{
    let net: ipnet::IpNet = match addr {
        IpAddr::V4(bits) => ipnet::Ipv4Net::new_assert(bits.into(), prefix_len).into(),
        IpAddr::V6(bits) => ipnet::Ipv6Net::new_assert(bits.into(), prefix_len).into(),
    };
    let host: ipnet::IpNet = match ip {
        IpAddr::V4(bits) => ipnet::Ipv4Net::new_assert(bits.into(), 32).into(),
        IpAddr::V6(bits) => ipnet::Ipv6Net::new_assert(bits.into(), 128).into(),
    };
    net.contains(&host.addr())
}

impl IpNet {
    #[verifier::type_invariant]
    spec fn prefix_fits(self) -> bool {
        self.prefix_len <= address_bits(self.addr)
    }

    /// The address that the network was written with.
    pub closed spec fn addr(self) -> IpAddr {
        self.addr
    }

    /// The number of leading bits that count.
    pub closed spec fn prefix_len(self) -> nat {
        self.prefix_len as nat
    }

    /// Whether `ip` lies in this network.
    pub open spec fn holds(self, ip: IpAddr) -> bool {
        in_network(self.addr(), self.prefix_len(), ip)
    }

    /// Makes a network; `None` when the prefix is longer than the address.
    pub fn new(addr: IpAddr, prefix_len: u8) -> (net: Option<IpNet>)
        ensures
            net is Some <==> prefix_len <= address_bits(addr),
            net matches Some(n) ==> n.addr() == addr && n.prefix_len() == prefix_len,
    {
        let bits: u8 = match addr {
            IpAddr::V4(_) => 32,
            IpAddr::V6(_) => 128,
        };
        if prefix_len <= bits {
            Some(IpNet { addr, prefix_len })
        } else {
            None
        }
    }

    /// Whether `ip` lies in this network.
    pub fn contains(&self, ip: IpAddr) -> (inside: bool)
        ensures
            inside == self.holds(ip),
    {
        proof {
            use_type_invariant(self);
        }
        network_contains(self.addr, self.prefix_len, ip)
    }
}

/// A network holds the address that it was written with.
pub proof fn law_network_holds_its_address(net: IpNet)
    ensures
        net.holds(net.addr()),
{
}

/// A network whose prefix is the whole address holds that address alone.
pub proof fn law_full_prefix_holds_one_address(addr: IpAddr, ip: IpAddr)
    ensures
        in_network(addr, address_bits(addr), ip) <==> ip == addr,
{
    lemma2_to64();
    match (addr, ip) {
        (IpAddr::V4(a), IpAddr::V4(b)) => {
            assert(a as nat / 1 == a as nat);
            assert(b as nat / 1 == b as nat);
        },
        (IpAddr::V6(a), IpAddr::V6(b)) => {
            assert(a as nat / 1 == a as nat);
            assert(b as nat / 1 == b as nat);
        },
        _ => {},
    }
}

/// A network with an empty prefix holds every address of its family, and no other.
pub proof fn law_empty_prefix_holds_the_family(addr: IpAddr, ip: IpAddr)
    ensures
        in_network(addr, 0, ip) <==> address_bits(addr) == address_bits(ip),
{
    lemma2_to64();
    lemma_pow2_adds(64, 64);
    match (addr, ip) {
        (IpAddr::V4(a), IpAddr::V4(b)) => {
            lemma_basic_div(a as int, 0x1_0000_0000);
            lemma_basic_div(b as int, 0x1_0000_0000);
        },
        (IpAddr::V6(a), IpAddr::V6(b)) => {
            lemma_basic_div(a as int, pow2(128) as int);
            lemma_basic_div(b as int, pow2(128) as int);
        },
        _ => {},
    }
}

/// A network with a prefix of `prefix_len` bits holds the block of addresses that starts where
/// the other bits of its address are zero; it holds them all, and no other.
pub proof fn law_network_holds_one_block(net: &IpNet, ip: IpAddr, inside: bool)
    requires
        call_ensures(IpNet::contains, (net, ip), inside),
        net.prefix_len() <= address_bits(net.addr()),
    ensures
        match (net.addr(), ip) {
            (IpAddr::V4(a), IpAddr::V4(b)) => {
                let size = pow2((32 - net.prefix_len()) as nat) as int;
                let start = a - a as int % size;
                inside <==> start <= b < start + size
            },
            (IpAddr::V6(a), IpAddr::V6(b)) => {
                let size = pow2((128 - net.prefix_len()) as nat) as int;
                let start = a - a as int % size;
                inside <==> start <= b < start + size
            },
            _ => !inside,
        },
{
    match (net.addr(), ip) {
        (IpAddr::V4(a), IpAddr::V4(b)) => {
            lemma_same_block(a as int, b as int, (32 - net.prefix_len()) as nat);
        },
        (IpAddr::V6(a), IpAddr::V6(b)) => {
            lemma_same_block(a as int, b as int, (128 - net.prefix_len()) as nat);
        },
        _ => {},
    }
}

proof fn lemma_same_block(a: int, b: int, host_bits: nat)
    requires
        a >= 0,
        b >= 0,
    ensures
        ({
            let size = pow2(host_bits) as int;
            let start = a - a % size;
            a / size == b / size <==> start <= b < start + size
        }),
{
    lemma_pow2_pos(host_bits);
    let size = pow2(host_bits) as int;
    lemma_fundamental_div_mod(a, size);
    lemma_fundamental_div_mod(b, size);
    lemma_mod_bound(b, size);
    lemma_mod_bound(a, size);
    let (p, q) = (a / size, b / size);
    if p < q {
        assert(size * p + size <= size * q) by (nonlinear_arith)
            requires
                p + 1 <= q,
                size > 0,
        ;
    } else if q < p {
        assert(size * q + size <= size * p) by (nonlinear_arith)
            requires
                q + 1 <= p,
                size > 0,
        ;
    }
}

/// A network is made for every prefix that fits the address: 32 bits for IPv4, 128 for IPv6. It
/// keeps the address and the prefix.
pub proof fn law_prefix_fits_the_address(addr: IpAddr, prefix_len: u8, net: Option<IpNet>)
    requires
        call_ensures(IpNet::new, (addr, prefix_len), net),
    ensures
        addr is V4 ==> (net is Some <==> prefix_len <= 32),
        addr is V6 ==> (net is Some <==> prefix_len <= 128),
        net is Some ==> net->0.addr() == addr && net->0.prefix_len() == prefix_len,
{
}

} // verus!
