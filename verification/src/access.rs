//! Who may create or delete a counter: callers from an allow-listed network
//! range, and callers that present the current shared secret.

use crate::dash::{
    listed_blocks, listed_blocks_all, listed_blocks_clear, listed_blocks_insert,
    listed_blocks_new,
};
use crate::text::{owned_text_of, same_text, text_of};
use dashmap::DashSet;
use foldhash::fast::RandomState;
use vstd::prelude::*;

verus! {

/// An IP address as a number: the octets read in network order.
#[derive(Clone, Copy, Debug, PartialEq, Eq, Hash, Structural)]
pub enum IpAddress {
    V4(u32),
    V6(u128),
}

/// The bits of an IPv4 address that lie behind a prefix of `prefix_len` bits.
pub open spec fn host_mask_v4(prefix_len: u8) -> u32 {
    if prefix_len >= 32 {
        0u32
    } else {
        0xffff_ffffu32 >> prefix_len
    }
}

/// The bits of an IPv6 address that lie behind a prefix of `prefix_len` bits.
pub open spec fn host_mask_v6(prefix_len: u8) -> u128 {
    if prefix_len >= 128 {
        0u128
    } else {
        0xffff_ffff_ffff_ffff_ffff_ffff_ffff_ffffu128 >> prefix_len
    }
}

/// `network` with `prefix_len` names a network: the prefix is no longer than
/// the address and every bit behind it is zero.
pub open spec fn is_network(network: IpAddress, prefix_len: u8) -> bool {
    match network {
        IpAddress::V4(bits) => prefix_len <= 32 && bits & host_mask_v4(prefix_len) == 0,
        IpAddress::V6(bits) => prefix_len <= 128 && bits & host_mask_v6(prefix_len) == 0,
    }
}

/// `addr` lies in the network: same family, and equal to the network's
/// address on every bit of the prefix.
pub open spec fn in_network(network: IpAddress, prefix_len: u8, addr: IpAddress) -> bool {
    match (network, addr) {
        (IpAddress::V4(net), IpAddress::V4(bits)) => net & !host_mask_v4(prefix_len) == bits
            & !host_mask_v4(prefix_len),
        (IpAddress::V6(net), IpAddress::V6(bits)) => net & !host_mask_v6(prefix_len) == bits
            & !host_mask_v6(prefix_len),
        _ => false,
    }
}

/// `cidr::Ipv4Cidr::new`, asked only whether it accepts: it does when the
/// prefix has at most 32 bits and the address has no bit set behind it.
#[verifier::external_body]
fn cidr_v4_accepts(network: u32, prefix_len: u8) -> (accepted: bool)
    ensures
        accepted == is_network(IpAddress::V4(network), prefix_len),
{
    cidr::Ipv4Cidr::new(network.into(), prefix_len).is_ok()
}

/// `cidr::Ipv6Cidr::new`, asked only whether it accepts: it does when the
/// prefix has at most 128 bits and the address has no bit set behind it.
#[verifier::external_body]
fn cidr_v6_accepts(network: u128, prefix_len: u8) -> (accepted: bool)
    ensures
        accepted == is_network(IpAddress::V6(network), prefix_len),
{
    cidr::Ipv6Cidr::new(network.into(), prefix_len).is_ok()
}

/// `cidr::Ipv4Cidr::contains` on the network built from `network` and
/// `prefix_len`: the two addresses agree on the prefix bits.
#[verifier::external_body]
fn cidr_v4_contains(network: u32, prefix_len: u8, addr: u32) -> (inside: bool)
    requires
        is_network(IpAddress::V4(network), prefix_len),
    ensures
        inside == in_network(IpAddress::V4(network), prefix_len, IpAddress::V4(addr)),
{
    match cidr::Ipv4Cidr::new(network.into(), prefix_len) {
        Ok(block) => block.contains(&addr.into()),
        Err(_) => false,
    }
}

/// `cidr::Ipv6Cidr::contains` on the network built from `network` and
/// `prefix_len`: the two addresses agree on the prefix bits.
#[verifier::external_body]
fn cidr_v6_contains(network: u128, prefix_len: u8, addr: u128) -> (inside: bool)
    requires
        is_network(IpAddress::V6(network), prefix_len),
    ensures
        inside == in_network(IpAddress::V6(network), prefix_len, IpAddress::V6(addr)),
{
    match cidr::Ipv6Cidr::new(network.into(), prefix_len) {
        Ok(block) => block.contains(&addr.into()),
        Err(_) => false,
    }
}

/// A network range in CIDR notation: a network address and the length of its
/// prefix.
#[derive(Clone, Copy, Debug, PartialEq, Eq, Hash, Structural)]
pub struct CidrBlock {
    network: IpAddress,
    prefix_len: u8,
}

impl CidrBlock {
    pub closed spec fn network(self) -> IpAddress {
        self.network
    }

    pub closed spec fn prefix_len(self) -> u8 {
        self.prefix_len
    }

    /// Every block names a network.
    #[verifier::type_invariant]
    spec fn names_a_network(self) -> bool {
        is_network(self.network, self.prefix_len)
    }

    /// The addresses of the block.
    pub open spec fn spec_contains(self, addr: IpAddress) -> bool {
        in_network(self.network(), self.prefix_len(), addr)
    }

    /// The block of `network` with a prefix of `prefix_len` bits, unless the
    /// two do not name a network.
    pub fn new(network: IpAddress, prefix_len: u8) -> (block: Option<CidrBlock>)
        ensures
            block is Some <==> is_network(network, prefix_len),
            block matches Some(b) ==> b.network() == network && b.prefix_len() == prefix_len,
    {
        let accepted: bool = match network {
            IpAddress::V4(bits) => cidr_v4_accepts(bits, prefix_len),
            IpAddress::V6(bits) => cidr_v6_accepts(bits, prefix_len),
        };
        if accepted {
            Some(CidrBlock { network, prefix_len })
        } else {
            None
        }
    }

    /// Whether `addr` lies in the block. An address of the other family never
    /// does.
    pub fn contains(&self, addr: IpAddress) -> (inside: bool)
        ensures
            inside == self.spec_contains(addr),
    {
        proof {
            use_type_invariant(self);
        }
        match (self.network, addr) {
            (IpAddress::V4(net), IpAddress::V4(bits)) => cidr_v4_contains(
                net,
                self.prefix_len,
                bits,
            ),
            (IpAddress::V6(net), IpAddress::V6(bits)) => cidr_v6_contains(
                net,
                self.prefix_len,
                bits,
            ),
            _ => false,
        }
    }

    pub fn network_address(&self) -> (network: IpAddress)
        ensures
            network == self.network(),
    {
        self.network
    }

    pub fn network_length(&self) -> (prefix_len: u8)
        ensures
            prefix_len == self.prefix_len(),
    {
        self.prefix_len
    }
}

/// Some block of the list holds `addr`.
pub open spec fn listed(allow_list: Set<CidrBlock>, addr: IpAddress) -> bool {
    exists|block: CidrBlock| #[trigger] allow_list.contains(block) && block.spec_contains(addr)
}

/// The rule itself. A caller is authorized when its origin is known and lies
/// in an allow-listed range, or else when a secret is configured and the
/// caller presents exactly that secret. Without a configured secret only the
/// allow-list can authorize.
pub open spec fn authorized(
    allow_list: Set<CidrBlock>,
    secret: Option<Seq<char>>,
    credential: Option<Seq<char>>,
    origin: Option<IpAddress>,
) -> bool {
    ||| origin matches Some(addr) && listed(allow_list, addr)
    ||| secret matches Some(wanted) && credential matches Some(given) && given == wanted
}

/// The allow-list and the shared secret that guard the counter store.
pub struct AccessPolicy {
    allow_list: DashSet<CidrBlock, RandomState>,
    secret: Option<String>,
}

impl AccessPolicy {
    pub closed spec fn allow_list(&self) -> Set<CidrBlock> {
        listed_blocks(self.allow_list)
    }

    pub closed spec fn secret(&self) -> Option<Seq<char>> {
        owned_text_of(self.secret)
    }

    /// A policy that authorizes nobody: no range, no secret.
    pub fn new() -> (policy: AccessPolicy)
        ensures
            policy.allow_list() == Set::<CidrBlock>::empty(),
            policy.secret() is None,
    {
        AccessPolicy { allow_list: listed_blocks_new(), secret: None }
    }

    /// Swaps in a new secret. A missing or empty secret changes nothing: a
    /// secret, once set, can be replaced but not cleared.
    pub fn update_secret(&mut self, secret: Option<&str>)
        ensures
            final(self).allow_list() == old(self).allow_list(),
            final(self).secret() == (match secret {
                Some(text) if text@.len() > 0 => Some(text@),
                _ => old(self).secret(),
            }),
    {
        match secret {
            Some(text) => {
                if !text.is_empty() {
                    self.secret = Some(text.to_owned());
                }
            },
            None => {},
        }
    }

    /// Replaces the allow-list by `blocks`.
    pub fn set_allow_list(&mut self, blocks: &Vec<CidrBlock>)
        ensures
            final(self).allow_list() == blocks@.to_set(),
            final(self).secret() == old(self).secret(),
    {
        listed_blocks_clear(&mut self.allow_list);
        let mut i: usize = 0;
        assert(blocks@.take(0).to_set() =~= Set::<CidrBlock>::empty());
        while i < blocks.len()
            invariant
                i <= blocks@.len(),
                listed_blocks(self.allow_list) == blocks@.take(i as int).to_set(),
                self.secret == old(self).secret,
            decreases blocks@.len() - i,
        {
            listed_blocks_insert(&mut self.allow_list, blocks[i]);
            proof {
                let upto = blocks@.take(i + 1);
                assert(upto =~= blocks@.take(i as int).push(blocks@[i as int]));
                assert(upto.to_set() =~= blocks@.take(i as int).to_set().insert(
                    blocks@[i as int],
                )) by {
                    assert forall|block: CidrBlock|
                        upto.to_set().contains(block) <==> blocks@.take(i as int).to_set().insert(
                            blocks@[i as int],
                        ).contains(block) by {
                        if upto.contains(block) {
                            let k = choose|k: int| 0 <= k < upto.len() && upto[k] == block;
                            if k < i {
                                assert(blocks@.take(i as int)[k] == block);
                            }
                        }
                        if blocks@.take(i as int).contains(block) {
                            let k = choose|k: int|
                                0 <= k < i && blocks@.take(i as int)[k] == block;
                            assert(upto[k] == block);
                        }
                        if block == blocks@[i as int] {
                            assert(upto[i as int] == block);
                        }
                    }
                }
            }
            i += 1;
        }
        assert(blocks@.take(blocks@.len() as int) =~= blocks@);
    }

    /// Whether the allow-list holds the origin.
    pub fn origin_allowed(&self, origin: Option<IpAddress>) -> (allowed: bool)
        ensures
            allowed == (origin matches Some(addr) && listed(self.allow_list(), addr)),
    {
        match origin {
            None => false,
            Some(addr) => {
                let blocks = listed_blocks_all(&self.allow_list);
                let mut i: usize = 0;
                while i < blocks.len()
                    invariant
                        origin == Some(addr),
                        blocks@.to_set() == self.allow_list(),
                        i <= blocks@.len(),
                        forall|j: int| 0 <= j < i ==> !(#[trigger] blocks@[j]).spec_contains(addr),
                    decreases blocks@.len() - i,
                {
                    if blocks[i].contains(addr) {
                        assert(blocks@.to_set().contains(blocks@[i as int]));
                        return true;
                    }
                    i += 1;
                }
                assert forall|block: CidrBlock| #[trigger]
                    self.allow_list().contains(block) implies !block.spec_contains(addr) by {
                    assert(blocks@.contains(block));
                    let j = choose|j: int| 0 <= j < blocks@.len() && blocks@[j] == block;
                    assert(!blocks@[j].spec_contains(addr));
                }
                false
            },
        }
    }

    /// Checks a request against the policy: the origin first, the credential
    /// only if the origin did not settle it.
    pub fn auth(&self, access_key: Option<&str>, remote_ip: Option<IpAddress>) -> (ok: bool)
        ensures
            ok == authorized(self.allow_list(), self.secret(), text_of(access_key), remote_ip),
    {
        if self.origin_allowed(remote_ip) {
            return true;
        }
        match (&self.secret, access_key) {
            (Some(wanted), Some(given)) => same_text(wanted.as_str(), given),
            _ => false,
        }
    }
}

} // verus!
