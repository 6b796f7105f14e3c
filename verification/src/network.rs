//! IPv6 networks as plain values: an address and a prefix length.

use vstd::prelude::*;
use vstd::arithmetic::power2::*;

verus! {

/// Number of bits in an IPv6 address.
pub const ADDRESS_BITS: u8 = 128;

/// Prefix length of the subnets that are handed out.
pub const SUBNET_BITS: u8 = 64;

/// Number of addresses in one /64 subnet, `2^64`.
pub const SUBNET_SIZE: u128 = 0x1_0000_0000_0000_0000;

/// An IPv6 network in CIDR form. The address is kept as written, host bits
/// included: two networks are equal only if address and length both match.
#[derive(Clone, Copy, Debug, PartialEq, Eq, Hash, Structural)]
pub struct Network {
    pub addr: u128,
    pub len: u8,
}

/// Number of addresses in a network of prefix length `len`.
pub open spec fn block_size(len: u8) -> nat {
    pow2((128 - len) as nat)
}

/// `1 << k` is the `k`-th power of two, for every shift that keeps the bit.
pub proof fn lemma_shl_one_is_pow2(k: u128)
    requires
        k < 128,
    ensures
        (1u128 << k) == pow2(k as nat),
    decreases k,
{
    if k == 0 {
        assert(1u128 << 0u128 == 1u128) by (bit_vector);
        lemma2_to64();
    } else {
        let j: u128 = (k - 1) as u128;
        lemma_shl_one_is_pow2(j);
        assert((1u128 << k) == 2 * (1u128 << j)) by (bit_vector)
            requires
                0 < k < 128,
                j == k - 1,
        ;
        lemma_pow2_unfold(k as nat);
    }
}

/// The value of `2^64` and of `2^128`, the sizes of a subnet and of the whole
/// address space.
pub proof fn lemma_pow2_values()
    ensures
        pow2(64) == 0x1_0000_0000_0000_0000,
        pow2(128) == 0x1_0000_0000_0000_0000_0000_0000_0000_0000,
        pow2(128) == u128::MAX + 1,
{
    lemma2_to64_rest();
    lemma_pow2_adds(64, 64);
    assert(0x1_0000_0000_0000_0000int * 0x1_0000_0000_0000_0000int
        == 0x1_0000_0000_0000_0000_0000_0000_0000_0000int) by (nonlinear_arith);
}

/// What `ipnet` reads from a text as an IPv6 network: the address as a number
/// and the prefix length, or `None` where the text is no such network.
pub uninterp spec fn parsed_network(text: Seq<char>) -> Option<(u128, u8)>;

/// The text that `ipnet` writes for the IPv6 network of the given address and
/// prefix length.
pub uninterp spec fn network_text(addr: u128, len: u8) -> Seq<char>;

/// Calls `<ipnet::Ipv6Net as FromStr>::from_str` and hands back the address
/// and the prefix length of what it read. The contract only gives that
/// outcome its name, `parsed_network`.
#[verifier::external_body]
fn parse_ipv6_net(text: &str) -> (r: Option<(u128, u8)>)
    ensures
        r == parsed_network(text@),
{
    match text.parse::<ipnet::Ipv6Net>() {
        Ok(net) => Some((u128::from(net.addr()), net.prefix_len())),
        Err(_) => None,
    }
}

/// Calls `ipnet::Ipv6Net`'s `Display` through `to_string`, on the network
/// built from the two values. The contract only gives the text its name,
/// `network_text`. A length above 128 is left out: `ipnet` refuses it.
#[verifier::external_body]
fn format_ipv6_net(addr: u128, len: u8) -> (r: String)
    requires
        len <= 128,
    ensures
        r@ == network_text(addr, len),
{
    ipnet::Ipv6Net::new_assert(addr.into(), len).to_string()
}

/// The network that a text denotes: what `ipnet` reads from it, if the
/// length is one of an IPv6 address.
pub open spec fn network_of_text(text: Seq<char>) -> Option<Network> {
    match parsed_network(text) {
        Some((addr, len)) => if len <= 128 {
            Some(Network { addr, len })
        } else {
            None
        },
        None => None,
    }
}

impl Network {
    /// The length is a prefix length of an IPv6 address.
    pub open spec fn wf(&self) -> bool {
        self.len <= 128
    }

    /// Lowest address of the network: the address with its host bits cleared.
    pub open spec fn first(&self) -> nat {
        (self.addr as nat / block_size(self.len)) * block_size(self.len)
    }

    /// Highest address of the network.
    pub open spec fn last(&self) -> nat {
        (self.first() + block_size(self.len) - 1) as nat
    }

    /// Every address of `other` is an address of `self`.
    pub open spec fn contains(&self, other: &Network) -> bool {
        self.first() <= other.first() && other.last() <= self.last()
    }

    /// Number of /64 subnets of the network: none where it is longer than /64.
    pub open spec fn subnet_count(&self) -> nat {
        if self.len <= 64 {
            pow2((64 - self.len) as nat)
        } else {
            0
        }
    }

    /// The `i`-th /64 subnet in ascending address order, counted from 0.
    pub open spec fn subnet(&self, i: nat) -> Network {
        Network { addr: (self.first() + i * pow2(64)) as u128, len: 64 }
    }

    /// The `i`-th /64 subnet in descending address order, counted from 0:
    /// the highest subnet first.
    pub open spec fn subnet_from_top(&self, i: nat) -> Network {
        self.subnet((self.subnet_count() - 1 - i) as nat)
    }

    /// The address is one of the network.
    pub open spec fn contains_addr(&self, addr: u128) -> bool {
        self.first() <= addr <= self.last()
    }

    /// Offset of an address from the start of the block of this network's
    /// size in which it lies: its host bits.
    pub open spec fn host_part(&self, addr: u128) -> nat {
        addr as nat % block_size(self.len)
    }

    /// A network of the given address and length, if the length fits an
    /// IPv6 address.
    pub fn new(addr: u128, len: u8) -> (r: Option<Network>)
        ensures
            len <= 128 ==> r == Some(Network { addr, len }),
            len > 128 ==> r is None,
    {
        if len <= ADDRESS_BITS {
            Some(Network { addr, len })
        } else {
            None
        }
    }

    /// Reads a network in CIDR notation, such as `2001:db8::/56`.
    pub fn parse(text: &str) -> (r: Option<Network>)
        ensures
            r == network_of_text(text@),
            r is Some ==> r.unwrap().wf(),
    {
        match parse_ipv6_net(text) {
            Some((addr, len)) => Network::new(addr, len),
            None => None,
        }
    }

    /// The network in CIDR notation.
    pub fn to_text(&self) -> (r: String)
        requires
            self.wf(),
        ensures
            r@ == network_text(self.addr, self.len),
    {
        format_ipv6_net(self.addr, self.len)
    }

    /// The block of a well-formed network lies inside the address space and
    /// starts at or below the address as written.
    pub proof fn lemma_block_bounds(&self)
        requires
            self.wf(),
        ensures
            block_size(self.len) > 0,
            self.first() <= self.addr,
            self.first() + block_size(self.len) <= pow2(128),
            self.last() <= u128::MAX,
            self.first() <= self.last(),
    {
        let b = block_size(self.len) as int;
        let c = pow2(self.len as nat) as int;
        let a = self.addr as int;
        lemma_pow2_pos((128 - self.len) as nat);
        lemma_pow2_pos(self.len as nat);
        lemma_pow2_adds((128 - self.len) as nat, self.len as nat);
        lemma_pow2_values();
        assert(b * c == pow2(128));
        assert((a / b) * b <= a && (a / b + 1) * b <= b * c) by (nonlinear_arith)
            requires
                0 <= a < b * c,
                b > 0,
                c > 0,
        ;
        assert((a / b + 1) * b == (a / b) * b + b) by (nonlinear_arith);
    }

    /// Lowest address of the network.
    pub fn network_addr(&self) -> (r: u128)
        requires
            self.wf(),
        ensures
            r == self.first(),
    {
        proof {
            self.lemma_block_bounds();
            lemma_pow2_values();
        }
        if self.len == 0 {
            assert(self.addr as nat / pow2(128) == 0) by (nonlinear_arith)
                requires
                    self.addr < pow2(128),
            ;
            0
        } else {
            let k: u128 = (ADDRESS_BITS - self.len) as u128;
            proof {
                lemma_shl_one_is_pow2(k);
            }
            let b: u128 = 1u128 << k;
            (self.addr / b) * b
        }
    }

    /// Highest address of the network.
    pub fn broadcast_addr(&self) -> (r: u128)
        requires
            self.wf(),
        ensures
            r == self.last(),
    {
        proof {
            self.lemma_block_bounds();
            lemma_pow2_values();
        }
        let first = self.network_addr();
        if self.len == 0 {
            u128::MAX
        } else {
            let k: u128 = (ADDRESS_BITS - self.len) as u128;
            proof {
                lemma_shl_one_is_pow2(k);
            }
            let b: u128 = 1u128 << k;
            first + (b - 1)
        }
    }

    /// Whether every address of `other` is one of `self`.
    pub fn contains_net(&self, other: &Network) -> (r: bool)
        requires
            self.wf(),
            other.wf(),
        ensures
            r == self.contains(other),
    {
        self.network_addr() <= other.network_addr() && other.broadcast_addr()
            <= self.broadcast_addr()
    }

    /// The `i`-th /64 subnet of a network of length at most 64 starts `i`
    /// subnet sizes above the network's first address, is aligned, and lies
    /// inside the network.
    pub proof fn lemma_subnet(&self, i: nat)
        requires
            self.len <= 64,
            i < self.subnet_count(),
        ensures
            self.subnet(i).addr == self.first() + i * pow2(64),
            self.subnet(i).len == 64,
            self.subnet(i).wf(),
            self.subnet(i).first() == self.subnet(i).addr,
            self.contains(&self.subnet(i)),
    {
        let w = pow2(64) as int;
        let c = self.subnet_count() as int;
        let b = block_size(self.len) as int;
        let q = (self.addr as nat / block_size(self.len)) as int;
        let n = i as int;
        self.lemma_block_bounds();
        lemma_pow2_values();
        lemma_pow2_adds((64 - self.len) as nat, 64);
        assert(b == c * w);
        assert(self.first() == q * b);
        assert(q * b + n * w == (q * c + n) * w && (q * c + n) * w + w <= q * b + b && 0 <= q * c
            + n) by (nonlinear_arith)
            requires
                b == c * w,
                0 <= n < c,
                0 <= q,
                w > 0,
        ;
        let s = self.subnet(i);
        assert(s.addr == (q * c + n) * w);
        assert(block_size(64) == w);
        assert(((q * c + n) * w) / w == q * c + n) by (nonlinear_arith)
            requires
                w > 0,
        ;
    }

    /// Whether the address is one of the network.
    pub fn contains_address(&self, addr: u128) -> (r: bool)
        requires
            self.wf(),
        ensures
            r == self.contains_addr(addr),
    {
        self.network_addr() <= addr && addr <= self.broadcast_addr()
    }

    /// The host bits of an address under this network's prefix length.
    pub fn host_bits(&self, addr: u128) -> (r: u128)
        requires
            self.wf(),
        ensures
            r == self.host_part(addr),
            r < block_size(self.len),
    {
        proof {
            self.lemma_block_bounds();
            lemma_pow2_values();
        }
        if self.len == 0 {
            assert(addr as nat % pow2(128) == addr) by (nonlinear_arith)
                requires
                    addr < pow2(128),
            ;
            addr
        } else {
            let k: u128 = (ADDRESS_BITS - self.len) as u128;
            proof {
                lemma_shl_one_is_pow2(k);
            }
            let b: u128 = 1u128 << k;
            assert(addr % b < b) by (nonlinear_arith)
                requires
                    b > 0,
            ;
            addr % b
        }
    }

    /// Number of /64 subnets of the network.
    pub fn subnet_total(&self) -> (r: u128)
        ensures
            r == self.subnet_count(),
            r <= SUBNET_SIZE,
            self.len <= 64 ==> 1 <= r,
    {
        if self.len > SUBNET_BITS {
            return 0;
        }
        let k: u128 = (SUBNET_BITS - self.len) as u128;
        proof {
            lemma_shl_one_is_pow2(k);
            lemma_pow2_values();
            lemma_pow2_pos(k as nat);
            if k < 64 {
                lemma_pow2_strictly_increases(k as nat, 64);
            }
        }
        1u128 << k
    }

    /// The `i`-th /64 subnet from the top of the network.
    pub fn top_subnet(&self, i: usize) -> (r: Network)
        requires
            self.len <= 64,
            i < self.subnet_count(),
        ensures
            r == self.subnet_from_top(i as nat),
    {
        let count = self.subnet_total();
        let index: u128 = count - 1 - (i as u128);
        let first = self.network_addr();
        proof {
            self.lemma_subnet(index as nat);
            lemma_pow2_values();
        }
        Network { addr: first + index * SUBNET_SIZE, len: SUBNET_BITS }
    }
}

} // verus!
