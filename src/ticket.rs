//! Tickets: a root hash and the reachability hints that a policy discloses.

use vstd::prelude::*;
use crate::collection::{Collection, ContentHash, ImportRecord, entry_of, record_entries, same_entries};

verus! {

/// Which reachability hints a ticket discloses.
#[derive(Clone, Copy, Debug, PartialEq, Eq, Structural)]
pub enum AddrInfoOptions {
    /// Only the endpoint identity.
    Id,
    /// The endpoint identity, its relay URLs and its direct addresses.
    RelayAndAddresses,
    /// The endpoint identity and its relay URLs.
    Relay,
    /// The endpoint identity and its direct addresses.
    Addresses,
}

impl Default for AddrInfoOptions {
    fn default() -> (r: AddrInfoOptions)
        ensures
            r == AddrInfoOptions::Id,
    {
        AddrInfoOptions::Id
    }
}

/// An IP address.
#[derive(Clone, Copy, Debug, PartialEq, Eq)]
pub enum IpAddress {
    V4([u8; 4]),
    V6([u8; 16]),
}

/// One reachability hint of an endpoint.
#[derive(Debug)]
pub enum TransportAddr {
    /// A relay server, by URL.
    Relay(String),
    /// A direct address: an IP address and a port.
    Ip(IpAddress, u16),
}

impl TransportAddr {
    /// A copy of this hint.
    pub fn duplicate(&self) -> (r: TransportAddr)
        ensures
            r == *self,
    {
        match self {
            TransportAddr::Relay(url) => TransportAddr::Relay(url.clone()),
            TransportAddr::Ip(ip, port) => TransportAddr::Ip(*ip, *port),
        }
    }
}

/// An endpoint's identity and the hints for reaching it.
pub struct EndpointAddr {
    pub id: [u8; 32],
    pub addrs: Vec<TransportAddr>,
}

/// What a ticket's hash names.
#[derive(Clone, Copy, Debug, PartialEq, Eq, Structural)]
pub enum BlobFormat {
    /// A single blob.
    Raw,
    /// A sequence of hashes: here always a collection.
    HashSeq,
}

/// What a receiver needs to locate and verify shared data.
pub struct Ticket {
    pub addr: EndpointAddr,
    pub hash: ContentHash,
    pub format: BlobFormat,
}

/// Whether the policy discloses this hint.
pub open spec fn discloses(opts: AddrInfoOptions, a: TransportAddr) -> bool {
    match opts {
        AddrInfoOptions::Id => false,
        AddrInfoOptions::RelayAndAddresses => true,
        AddrInfoOptions::Relay => a is Relay,
        AddrInfoOptions::Addresses => a is Ip,
    }
}

/// The hints that the policy discloses, in their order.
pub open spec fn disclosed(addrs: Seq<TransportAddr>, opts: AddrInfoOptions) -> Seq<TransportAddr>
    decreases addrs.len(),
{
    if addrs.len() == 0 {
        Seq::empty()
    } else if discloses(opts, addrs.last()) {
        disclosed(addrs.drop_last(), opts).push(addrs.last())
    } else {
        disclosed(addrs.drop_last(), opts)
    }
}

/// Drops from `addr` the hints that the policy does not disclose.
pub fn apply_options(addr: &mut EndpointAddr, opts: AddrInfoOptions)
    ensures
        final(addr).id == old(addr).id,
        final(addr).addrs@ == disclosed(old(addr).addrs@, opts),
{
    let mut kept: Vec<TransportAddr> = Vec::new();
    let mut i: usize = 0;
    while i < addr.addrs.len()
        invariant
            i <= addr.addrs@.len(),
            kept@ == disclosed(addr.addrs@.take(i as int), opts),
        decreases addr.addrs@.len() - i,
    {
        let a = &addr.addrs[i];
        let keep = match opts {
            AddrInfoOptions::Id => false,
            AddrInfoOptions::RelayAndAddresses => true,
            AddrInfoOptions::Relay => matches!(a, TransportAddr::Relay(_)),
            AddrInfoOptions::Addresses => matches!(a, TransportAddr::Ip(..)),
        };
        proof {
            let t = addr.addrs@.take(i as int + 1);
            assert(t.drop_last() =~= addr.addrs@.take(i as int));
            assert(t.last() == addr.addrs@[i as int]);
        }
        if keep {
            kept.push(a.duplicate());
        }
        i = i + 1;
    }
    assert(addr.addrs@.take(i as int) =~= addr.addrs@);
    addr.addrs = kept;
}

/// `t` is the ticket for `hash` reachable at `addr` under the policy.
pub open spec fn ticket_built(t: Ticket, addr: EndpointAddr, hash: ContentHash, opts: AddrInfoOptions) -> bool {
    &&& t.addr.id == addr.id
    &&& t.addr.addrs@ == disclosed(addr.addrs@, opts)
    &&& t.hash == hash
    &&& t.format == BlobFormat::HashSeq
}

/// Builds the ticket for a collection's root hash.
///
/// The address keeps only what the policy discloses; the format always says
/// that the hash names a collection, also when the collection holds a single
/// file.
pub fn build_ticket(addr: EndpointAddr, hash: ContentHash, opts: AddrInfoOptions) -> (r: Ticket)
    ensures
        ticket_built(r, addr, hash, opts),
{
    let mut addr = addr;
    apply_options(&mut addr, opts);
    Ticket { addr, hash, format: BlobFormat::HashSeq }
}

/// Whether a receiver must look the sender up by identity alone: the ticket
/// holds neither a relay URL nor a direct address.
pub fn needs_discovery(addr: &EndpointAddr) -> (r: bool)
    ensures
        r == (forall|k: int| 0 <= k < addr.addrs@.len() ==> !(#[trigger] addr.addrs@[k] is Relay) && !(
        addr.addrs@[k] is Ip)),
{
    let mut i: usize = 0;
    while i < addr.addrs.len()
        invariant
            i <= addr.addrs@.len(),
            forall|k: int| 0 <= k < i ==> !(#[trigger] addr.addrs@[k] is Relay) && !(addr.addrs@[k] is Ip),
        decreases addr.addrs@.len() - i,
    {
        match &addr.addrs[i] {
            TransportAddr::Relay(_) => return false,
            TransportAddr::Ip(..) => return false,
        }
    }
    true
}

/// Each policy discloses exactly the hints it names: none for `Id`, all of
/// them for `RelayAndAddresses`, the relay hints for `Relay`, the direct
/// addresses for `Addresses`; a hint is kept exactly when it was there and
/// the policy names its kind.
pub proof fn lemma_disclosed_matches_policy(addrs: Seq<TransportAddr>, opts: AddrInfoOptions)
    ensures
        forall|a: TransportAddr| #[trigger] disclosed(addrs, opts).contains(a) <==> (addrs.contains(a)
            && discloses(opts, a)),
        opts == AddrInfoOptions::Id ==> disclosed(addrs, opts).len() == 0,
        opts == AddrInfoOptions::RelayAndAddresses ==> disclosed(addrs, opts) == addrs,
        opts == AddrInfoOptions::Relay ==> forall|k: int|
            0 <= k < disclosed(addrs, opts).len() ==> #[trigger] disclosed(addrs, opts)[k] is Relay,
        opts == AddrInfoOptions::Addresses ==> forall|k: int|
            0 <= k < disclosed(addrs, opts).len() ==> #[trigger] disclosed(addrs, opts)[k] is Ip,
    decreases addrs.len(),
{
    if addrs.len() > 0 {
        let init = addrs.drop_last();
        lemma_disclosed_matches_policy(init, opts);
        assert(addrs =~= init.push(addrs.last()));
        let d = disclosed(addrs, opts);
        let di = disclosed(init, opts);
        assert forall|a: TransportAddr| #[trigger] d.contains(a) <==> (addrs.contains(a) && discloses(
            opts,
            a,
        )) by {
            if d.contains(a) {
                let k = choose|k: int| 0 <= k < d.len() && d[k] == a;
                if k < di.len() && discloses(opts, addrs.last()) {
                    assert(di[k] == a);
                    assert(di.contains(a));
                    let m = choose|m: int| 0 <= m < init.len() && init[m] == a;
                    assert(addrs[m] == a);
                } else if discloses(opts, addrs.last()) {
                    assert(addrs[addrs.len() - 1] == a);
                } else {
                    assert(di.contains(a));
                    let m = choose|m: int| 0 <= m < init.len() && init[m] == a;
                    assert(addrs[m] == a);
                }
            }
            if addrs.contains(a) && discloses(opts, a) {
                let m = choose|m: int| 0 <= m < addrs.len() && addrs[m] == a;
                if m < init.len() {
                    assert(init[m] == a);
                    assert(init.contains(a));
                    assert(di.contains(a));
                    let k = choose|k: int| 0 <= k < di.len() && di[k] == a;
                    if discloses(opts, addrs.last()) {
                        assert(d[k] == a);
                    } else {
                        assert(d == di);
                    }
                } else {
                    assert(d[d.len() - 1] == a);
                }
            }
        }
        if discloses(opts, addrs.last()) {
            assert forall|k: int| 0 <= k < d.len() implies (opts == AddrInfoOptions::Relay ==> #[trigger] d[k] is Relay)
                && (opts == AddrInfoOptions::Addresses ==> d[k] is Ip) by {
                if k < di.len() {
                    assert(d[k] == di[k]);
                }
            }
        }
    } else {
        assert(disclosed(addrs, opts) =~= addrs);
    }
}

/// Sharing a single file: the collection built from its one import record
/// has exactly one entry, that file's, and the ticket for it still says that
/// its hash names a collection, never a raw blob.
pub proof fn lemma_single_file_share(
    records: Seq<ImportRecord>,
    c: Collection,
    t: Ticket,
    addr: EndpointAddr,
    opts: AddrInfoOptions,
)
    requires
        records.len() == 1,
        same_entries(c@, record_entries(records)),
        ticket_built(t, addr, t.hash, opts),
    ensures
        c@.len() == 1,
        c@[0] == entry_of(records[0].name@, records[0].hash),
        t.format == BlobFormat::HashSeq,
        t.format != BlobFormat::Raw,
{
    let re = record_entries(records);
    assert(re.contains(c@[0]));
    let j = choose|j: int| 0 <= j < re.len() && re[j] == c@[0];
    assert(j == 0);
}

} // verus!
