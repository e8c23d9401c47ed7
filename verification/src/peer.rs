//! Which peers an active-mode data connection is accepted from.

use vstd::prelude::*;

verus! {

/// How many addresses IPv4 has.
pub const IPV4_SPACE: u128 = 0x1_0000_0000;

/// The upper 96 bits of an IPv6 address that stands for an IPv4 one, `::ffff:0:0/96`.
pub const IPV4_MAPPED: u128 = 0xffff;

/// An IP address, as the number that its bytes make in network order.
#[derive(Debug, Clone, Copy, PartialEq, Eq, Structural)]
pub enum IpAddr {
    /// An IPv4 address.
    V4(u32),
    /// An IPv6 address.
    V6(u128),
}

/// The IPv6 address that stands for the IPv4 address `bits`.
pub open spec fn mapped(bits: u32) -> IpAddr {
    IpAddr::V6((IPV4_MAPPED * IPV4_SPACE + bits) as u128)
}

/// The address that `address` stands for: the IPv4 form of an IPv4-mapped IPv6 address, and every
/// other address itself.
pub open spec fn canonical(address: IpAddr) -> IpAddr {
    match address {
        IpAddr::V6(bits) if bits / IPV4_SPACE == IPV4_MAPPED => IpAddr::V4(
            (bits % IPV4_SPACE) as u32,
        ),
        other => other,
    }
}

impl IpAddr {
    /// The IPv4 form of an IPv4-mapped IPv6 address, and every other address as it is.
    pub fn to_canonical(self) -> (address: Self)
        ensures
            address == canonical(self),
    {
        match self {
            IpAddr::V4(bits) => IpAddr::V4(bits),
            IpAddr::V6(bits) => {
                if bits / IPV4_SPACE == IPV4_MAPPED {
                    IpAddr::V4((bits % IPV4_SPACE) as u32)
                } else {
                    IpAddr::V6(bits)
                }
            },
        }
    }
}

/// Which addresses an active-mode data connection is accepted from.
///
/// In active mode the client listens for the server to connect back, and anyone who can reach
/// the listener may connect first. Connections from addresses that are not allowed are ignored
/// until an allowed one arrives or the active timeout expires. Addresses are compared after
/// [`IpAddr::to_canonical`], so an IPv4-mapped IPv6 address matches its IPv4 form.
#[derive(Debug, PartialEq, Eq)]
pub enum ActivePeerCheck {
    /// Accept only the address of the server on the control connection.
    ControlPeer,
    /// Accept any address.
    Any,
    /// Accept only the addresses on the list, e.g. when the server connects back from another
    /// address behind NAT, or the control connection goes through a relay or proxy.
    Allow(Vec<IpAddr>),
}

impl Default for ActivePeerCheck {
    fn default() -> (check: Self)
        ensures
            check == ActivePeerCheck::ControlPeer,
    {
        ActivePeerCheck::ControlPeer
    }
}

/// The mathematical value of an [`ActivePeerCheck`].
pub enum ActivePeerCheckView {
    ControlPeer,
    Any,
    Allow(Seq<IpAddr>),
}

impl View for ActivePeerCheck {
    type V = ActivePeerCheckView;

    open spec fn view(&self) -> ActivePeerCheckView {
        match self {
            ActivePeerCheck::ControlPeer => ActivePeerCheckView::ControlPeer,
            ActivePeerCheck::Any => ActivePeerCheckView::Any,
            ActivePeerCheck::Allow(allowed) => ActivePeerCheckView::Allow(allowed@),
        }
    }
}

impl Clone for ActivePeerCheck {
    fn clone(&self) -> (check: Self)
        ensures
            check@ == self@,
    {
        match self {
            ActivePeerCheck::ControlPeer => ActivePeerCheck::ControlPeer,
            ActivePeerCheck::Any => ActivePeerCheck::Any,
            ActivePeerCheck::Allow(allowed) => {
                let list: Vec<IpAddr> = allowed.clone();
                assert(list@ =~= allowed@);
                ActivePeerCheck::Allow(list)
            },
        }
    }
}

/// Whether `check` accepts a data connection from `peer`, where the control connection goes to
/// `control_peer`.
pub open spec fn accepts(
    check: ActivePeerCheckView,
    peer: IpAddr,
    control_peer: IpAddr,
) -> bool {
    match check {
        ActivePeerCheckView::ControlPeer => canonical(peer) == canonical(control_peer),
        ActivePeerCheckView::Any => true,
        ActivePeerCheckView::Allow(allowed) => exists|i: int|
            0 <= i < allowed.len() && canonical(#[trigger] allowed[i]) == canonical(peer),
    }
}

impl ActivePeerCheck {
    /// Whether a data connection from `peer` is accepted, given the control connection's peer.
    pub fn allows(&self, peer: IpAddr, control_peer: IpAddr) -> (allowed: bool)
        ensures
            allowed == accepts(self@, peer, control_peer),
    {
        let wanted: IpAddr = peer.to_canonical();
        match self {
            ActivePeerCheck::ControlPeer => wanted == control_peer.to_canonical(),
            ActivePeerCheck::Any => true,
            ActivePeerCheck::Allow(allowed) => {
                let mut i: usize = 0;
                while i < allowed.len()
                    invariant
                        i <= allowed@.len(),
                        wanted == canonical(peer),
                        self@ == ActivePeerCheckView::Allow(allowed@),
                        forall|j: int|
                            0 <= j < i ==> canonical(#[trigger] allowed@[j]) != wanted,
                    decreases allowed@.len() - i,
                {
                    if allowed[i].to_canonical() == wanted {
                        assert(canonical(allowed@[i as int]) == wanted);
                        return true;
                    }
                    i = i + 1;
                }
                false
            },
        }
    }
}

/// An IPv4-mapped IPv6 address stands for its IPv4 form.
pub proof fn mapped_stands_for_v4(bits: u32)
    ensures
        canonical(mapped(bits)) == canonical(IpAddr::V4(bits)),
        canonical(mapped(bits)) == IpAddr::V4(bits),
{
}

/// An address that stands for another one stands for nothing further.
pub proof fn canonical_is_stable(address: IpAddr)
    ensures
        canonical(canonical(address)) == canonical(address),
{
}

/// Only the IPv4-mapped form and the IPv4 address itself stand for an IPv4 address.
pub proof fn v4_has_two_forms(address: IpAddr, bits: u32)
    ensures
        canonical(address) == IpAddr::V4(bits) <==> address == IpAddr::V4(bits) || address
            == mapped(bits),
{
}

/// Whether two addresses are those of one host: they are equal, or one is the IPv6 form
/// `::ffff:a.b.c.d` of the other.
pub open spec fn same_host(a: IpAddr, b: IpAddr) -> bool {
    match (a, b) {
        (IpAddr::V4(x), IpAddr::V4(y)) => x == y,
        (IpAddr::V6(x), IpAddr::V6(y)) => x == y,
        (IpAddr::V4(x), IpAddr::V6(y)) => y == 0xffff_0000_0000 + x,
        (IpAddr::V6(x), IpAddr::V4(y)) => x == 0xffff_0000_0000 + y,
    }
}

/// Two addresses stand for one address exactly if they are those of one host; and what an address
/// stands for is that host.
pub proof fn canonical_tells_hosts_apart(a: IpAddr, b: IpAddr)
    ensures
        canonical(a) == canonical(b) <==> same_host(a, b),
        same_host(canonical(a), a),
{
}

/// Checks mean what they hold: a list means its entries, all of them and in their order.
pub proof fn checks_mean_what_they_hold(allowed: Vec<IpAddr>)
    ensures
        ActivePeerCheck::ControlPeer@ == ActivePeerCheckView::ControlPeer,
        ActivePeerCheck::Any@ == ActivePeerCheckView::Any,
        ActivePeerCheck::Allow(allowed)@ == ActivePeerCheckView::Allow(allowed@),
{
}

/// The check for the control connection's peer accepts exactly the host of that peer.
pub proof fn control_peer_is_the_only_one(peer: IpAddr, control_peer: IpAddr)
    ensures
        accepts(ActivePeerCheck::ControlPeer@, peer, control_peer) <==> same_host(
            peer,
            control_peer,
        ),
{
    canonical_tells_hosts_apart(peer, control_peer);
}

/// The check for any peer accepts every peer, whatever the control connection's peer is.
pub proof fn any_peer_is_accepted(peer: IpAddr, control_peer: IpAddr)
    ensures
        accepts(ActivePeerCheck::Any@, peer, control_peer),
{
}

/// A list accepts exactly the hosts of its entries, whatever the control connection's peer is.
pub proof fn list_accepts_its_hosts(allowed: Vec<IpAddr>, peer: IpAddr, control_peer: IpAddr)
    ensures
        accepts(ActivePeerCheck::Allow(allowed)@, peer, control_peer) <==> exists|i: int|
            0 <= i < allowed@.len() && same_host(#[trigger] allowed@[i], peer),
{
    assert forall|i: int| 0 <= i < allowed@.len() implies (canonical(#[trigger] allowed@[i])
        == canonical(peer) <==> same_host(allowed@[i], peer)) by {
        canonical_tells_hosts_apart(allowed@[i], peer);
    }
}

/// Whether a peer is accepted depends, of the two peers, only on the addresses that they stand for.
pub proof fn accepts_by_canonical(
    check: ActivePeerCheckView,
    peer: IpAddr,
    other_peer: IpAddr,
    control_peer: IpAddr,
    other_control_peer: IpAddr,
)
    requires
        canonical(peer) == canonical(other_peer),
        canonical(control_peer) == canonical(other_control_peer),
    ensures
        accepts(check, peer, control_peer) == accepts(check, other_peer, other_control_peer),
{
}

/// Whether a list accepts a peer depends, of its entries, only on the addresses that they stand
/// for.
pub proof fn list_accepts_by_canonical(
    allowed: Seq<IpAddr>,
    other_allowed: Seq<IpAddr>,
    peer: IpAddr,
    control_peer: IpAddr,
)
    requires
        allowed.len() == other_allowed.len(),
        forall|i: int|
            0 <= i < allowed.len() ==> canonical(#[trigger] allowed[i]) == canonical(
                other_allowed[i],
            ),
    ensures
        accepts(ActivePeerCheckView::Allow(allowed), peer, control_peer) == accepts(
            ActivePeerCheckView::Allow(other_allowed),
            peer,
            control_peer,
        ),
{
    if accepts(ActivePeerCheckView::Allow(allowed), peer, control_peer) {
        let i = choose|i: int|
            0 <= i < allowed.len() && canonical(#[trigger] allowed[i]) == canonical(peer);
        assert(canonical(other_allowed[i]) == canonical(peer));
    }
    if accepts(ActivePeerCheckView::Allow(other_allowed), peer, control_peer) {
        let i = choose|i: int|
            0 <= i < other_allowed.len() && canonical(#[trigger] other_allowed[i]) == canonical(
                peer,
            );
        assert(canonical(allowed[i]) == canonical(peer));
    }
}

/// A list accepts each of its entries, whatever the control connection's peer is, and an empty
/// list accepts nothing.
pub proof fn list_accepts_its_entries(
    allowed: Seq<IpAddr>,
    peer: IpAddr,
    control_peer: IpAddr,
)
    ensures
        allowed.contains(peer) ==> accepts(
            ActivePeerCheckView::Allow(allowed),
            peer,
            control_peer,
        ),
        allowed.len() == 0 ==> !accepts(ActivePeerCheckView::Allow(allowed), peer, control_peer),
{
    if allowed.contains(peer) {
        let i = choose|i: int| 0 <= i < allowed.len() && allowed[i] == peer;
        assert(canonical(allowed[i]) == canonical(peer));
    }
}

} // verus!
