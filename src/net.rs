//! Plain network values: addresses, identifiers and flow identity.
use vstd::prelude::*;

verus! {

/// An Ethernet MAC address, held in the low 48 bits of `value`.
#[derive(Clone, Copy, Debug, PartialEq, Eq, Structural)]
pub struct EtherAddr {
    pub value: u64,
}

/// An IPv4 address, held as its 32-bit big-endian value.
#[derive(Clone, Copy, Debug, PartialEq, Eq, Structural)]
pub struct Ipv4Addr {
    pub value: u32,
}

/// An IPv6 address, held as its 128-bit big-endian value.
#[derive(Clone, Copy, Debug, PartialEq, Eq, Structural)]
pub struct Ipv6Addr {
    pub value: u128,
}

/// The largest Virtual Network Identifier: a VNI is 24 bits wide.
pub const VNI_MAX: u32 = 0xff_ffff;

/// A Virtual Network Identifier.
#[derive(Clone, Copy, Debug, PartialEq, Eq, Structural)]
pub struct Vni {
    pub value: u32,
}

impl Vni {
    pub open spec fn spec_value(self) -> u32 {
        self.value
    }

    pub open spec fn wf(self) -> bool {
        self.value <= VNI_MAX
    }

    /// Make a VNI; `None` when the value does not fit in 24 bits.
    pub fn new(value: u32) -> (r: Option<Vni>)
        ensures
            value <= VNI_MAX <==> r.is_some(),
            r matches Some(v) ==> v.spec_value() == value && v.wf(),
    {
        if value <= VNI_MAX {
            Some(Vni { value })
        } else {
            None
        }
    }

    pub fn value(&self) -> (r: u32)
        ensures
            r == self.spec_value(),
    {
        self.value
    }
}

/// An IPv4 subnet in CIDR form.
#[derive(Clone, Copy, Debug, PartialEq, Eq, Structural)]
pub struct VpcSubnet4 {
    pub cidr: Ipv4Addr,
    pub prefix_len: u8,
}

/// The netmask of a prefix length; lengths above 32 mean a host route.
pub open spec fn spec_mask(prefix_len: u8) -> u32 {
    if prefix_len == 0 {
        0u32
    } else if prefix_len >= 32 {
        0xffff_ffffu32
    } else {
        (0xffff_ffffu32 << ((32 - prefix_len) as u32)) as u32
    }
}

pub fn mask(prefix_len: u8) -> (r: u32)
    ensures
        r == spec_mask(prefix_len),
{
    if prefix_len == 0 {
        0u32
    } else if prefix_len >= 32 {
        0xffff_ffffu32
    } else {
        0xffff_ffffu32 << ((32 - prefix_len) as u32)
    }
}

impl VpcSubnet4 {
    /// Whether `ip` lies inside the subnet.
    pub open spec fn spec_contains(self, ip: Ipv4Addr) -> bool {
        ip.value & spec_mask(self.prefix_len) == self.cidr.value & spec_mask(self.prefix_len)
    }

    pub fn contains(&self, ip: Ipv4Addr) -> (r: bool)
        ensures
            r == self.spec_contains(ip),
    {
        let m = mask(self.prefix_len);
        ip.value & m == self.cidr.value & m
    }
}

/// The direction of a packet relative to the port.
#[derive(Clone, Copy, Debug, PartialEq, Eq, Structural)]
pub enum Direction {
    In,
    Out,
}

/// The transport protocol of a flow; any other protocol number is kept
/// as it is and matches no protocol filter but its own.
#[derive(Clone, Copy, Debug, PartialEq, Eq, Structural)]
pub enum Protocol {
    Icmp,
    Tcp,
    Udp,
    Unknown(u8),
}

impl Protocol {
    /// The protocol of an IP protocol number.
    pub fn from_number(n: u8) -> (r: Protocol)
        ensures
            n == 1 ==> r == Protocol::Icmp,
            n == 6 ==> r == Protocol::Tcp,
            n == 17 ==> r == Protocol::Udp,
            n != 1 && n != 6 && n != 17 ==> r == Protocol::Unknown(n),
    {
        if n == 1 {
            Protocol::Icmp
        } else if n == 6 {
            Protocol::Tcp
        } else if n == 17 {
            Protocol::Udp
        } else {
            Protocol::Unknown(n)
        }
    }
}

/// The identity of a flow as seen by one direction of a port.
#[derive(Clone, Copy, Debug, PartialEq, Eq, Structural)]
pub struct FlowId {
    pub proto: Protocol,
    pub src_ip: Ipv4Addr,
    pub src_port: u16,
    pub dst_ip: Ipv4Addr,
    pub dst_port: u16,
}

impl FlowId {
    pub open spec fn spec_reverse(self) -> FlowId {
        FlowId {
            proto: self.proto,
            src_ip: self.dst_ip,
            src_port: self.dst_port,
            dst_ip: self.src_ip,
            dst_port: self.src_port,
        }
    }

    /// The same flow seen from the other direction.
    pub fn reverse(&self) -> (r: FlowId)
        ensures
            r == self.spec_reverse(),
    {
        FlowId {
            proto: self.proto,
            src_ip: self.dst_ip,
            src_port: self.dst_port,
            dst_ip: self.src_ip,
            dst_port: self.src_port,
        }
    }
}

} // verus!
