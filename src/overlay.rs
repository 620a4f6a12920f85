//! Overlay encapsulation: a guest packet wrapped in a tunnel header that
//! carries the physical addressing and the Virtual Network Identifier.
//!
//! The header is `HEADER_LEN` bytes, all fields big-endian: physical
//! destination MAC (6), physical source MAC (6), physical source IPv6
//! (16), boundary-services IPv6 (16), VNI (3), one reserved zero byte.
use vstd::prelude::*;

use crate::net::Vni;
use crate::oxide_net::OverlayConfig;

verus! {

pub const HEADER_LEN: usize = 48;

/// Offset of the VNI in the header.
pub const VNI_OFFSET: usize = 44;

/// Why an outer packet was refused.
#[derive(Clone, Copy, Debug, PartialEq, Eq, Structural)]
pub enum OverlayError {
    /// Shorter than a tunnel header.
    Truncated,
    /// The header carries another VNI than the port's.
    VniMismatch,
}

/// The low `n` bytes of `v`, most significant first.
pub open spec fn be_bytes(v: nat, n: nat) -> Seq<u8>
    decreases n,
{
    if n == 0 {
        Seq::empty()
    } else {
        be_bytes(v / 256, (n - 1) as nat).push((v % 256) as u8)
    }
}

pub proof fn lemma_be_bytes_len(v: nat, n: nat)
    ensures
        be_bytes(v, n).len() == n,
    decreases n,
{
    if n > 0 {
        lemma_be_bytes_len(v / 256, (n - 1) as nat);
    }
}

/// The tunnel header that `cfg` stamps on outbound packets.
pub open spec fn spec_header(cfg: OverlayConfig) -> Seq<u8> {
    be_bytes(cfg.phys_mac_dst.value as nat, 6) + be_bytes(cfg.phys_mac_src.value as nat, 6)
        + be_bytes(cfg.phys_ip_src.value as nat, 16) + be_bytes(
        cfg.boundary_services.ip.value as nat,
        16,
    ) + be_bytes(cfg.vni.value as nat, 3) + seq![0u8]
}

pub open spec fn spec_encapsulate(inner: Seq<u8>, cfg: OverlayConfig) -> Seq<u8> {
    spec_header(cfg) + inner
}

/// The VNI that an outer packet's header carries.
pub open spec fn header_vni(outer: Seq<u8>) -> int {
    outer[VNI_OFFSET as int] as int * 65536 + outer[VNI_OFFSET + 1] as int * 256
        + outer[VNI_OFFSET + 2] as int
}

pub open spec fn spec_decapsulate(outer: Seq<u8>, vni: Vni) -> Result<Seq<u8>, OverlayError> {
    if outer.len() < HEADER_LEN {
        Err(OverlayError::Truncated)
    } else if header_vni(outer) != vni.value {
        Err(OverlayError::VniMismatch)
    } else {
        Ok(outer.skip(HEADER_LEN as int))
    }
}

/// Append the low `n` bytes of `v`, most significant first.
fn push_be(out: &mut Vec<u8>, v: u128, n: usize)
    requires
        n <= 16,
    ensures
        final(out)@ == old(out)@ + be_bytes(v as nat, n as nat),
    decreases n,
{
    if n > 0 {
        push_be(out, v / 256, n - 1);
        out.push((v % 256) as u8);
    }
}

/// Wrap `inner` in the tunnel header of `cfg`.
pub fn encapsulate(inner: &Vec<u8>, cfg: &OverlayConfig) -> (r: Vec<u8>)
    ensures
        r@ == spec_encapsulate(inner@, *cfg),
{
    let mut out: Vec<u8> = Vec::new();
    push_be(&mut out, cfg.phys_mac_dst.value as u128, 6);
    push_be(&mut out, cfg.phys_mac_src.value as u128, 6);
    push_be(&mut out, cfg.phys_ip_src.value, 16);
    push_be(&mut out, cfg.boundary_services.ip.value, 16);
    push_be(&mut out, cfg.vni.value as u128, 3);
    out.push(0u8);
    let mut i: usize = 0;
    let ghost hdr = out@;
    while i < inner.len()
        invariant
            hdr == spec_header(*cfg),
            i <= inner@.len(),
            out@ == hdr + inner@.subrange(0, i as int),
        decreases inner@.len() - i,
    {
        out.push(inner[i]);
        assert(inner@.subrange(0, i + 1) == inner@.subrange(0, i as int).push(inner@[i as int]));
        i += 1;
    }
    assert(inner@.subrange(0, inner@.len() as int) == inner@);
    out
}

/// Unwrap an outer packet addressed to the network `vni`.
pub fn decapsulate(outer: &Vec<u8>, vni: Vni) -> (r: Result<Vec<u8>, OverlayError>)
    ensures
        match r {
            Ok(v) => spec_decapsulate(outer@, vni) == Ok::<Seq<u8>, OverlayError>(v@),
            Err(e) => spec_decapsulate(outer@, vni) == Err::<Seq<u8>, OverlayError>(e),
        },
{
    if outer.len() < HEADER_LEN {
        return Err(OverlayError::Truncated);
    }
    let carried: u32 = outer[VNI_OFFSET] as u32 * 65536 + outer[VNI_OFFSET + 1] as u32 * 256
        + outer[VNI_OFFSET + 2] as u32;
    if carried != vni.value {
        return Err(OverlayError::VniMismatch);
    }
    let mut inner: Vec<u8> = Vec::new();
    let mut i: usize = HEADER_LEN;
    while i < outer.len()
        invariant
            HEADER_LEN <= i <= outer@.len(),
            inner@ == outer@.subrange(HEADER_LEN as int, i as int),
        decreases outer@.len() - i,
    {
        inner.push(outer[i]);
        assert(outer@.subrange(HEADER_LEN as int, i + 1) == outer@.subrange(
            HEADER_LEN as int,
            i as int,
        ).push(outer@[i as int]));
        i += 1;
    }
    Ok(inner)
}

/// The overlay stage on the way out: encapsulation where the port has an
/// overlay, the packet unchanged where it has none.
pub fn overlay_out(cfg: &Option<OverlayConfig>, inner: Vec<u8>) -> (r: Vec<u8>)
    ensures
        match cfg {
            Some(c) => r@ == spec_encapsulate(inner@, *c),
            None => r@ == inner@,
        },
{
    match cfg {
        Some(c) => encapsulate(&inner, c),
        None => inner,
    }
}

/// The overlay stage on the way in: decapsulation for the port's VNI
/// where the port has an overlay, the packet unchanged where it has none.
pub fn overlay_in(cfg: &Option<OverlayConfig>, outer: Vec<u8>) -> (r: Result<Vec<u8>, OverlayError>)
    ensures
        match cfg {
            Some(c) => match r {
                Ok(v) => spec_decapsulate(outer@, c.vni) == Ok::<Seq<u8>, OverlayError>(v@),
                Err(e) => spec_decapsulate(outer@, c.vni) == Err::<Seq<u8>, OverlayError>(e),
            },
            None => r matches Ok(v) && v@ == outer@,
        },
{
    match cfg {
        Some(c) => decapsulate(&outer, c.vni),
        None => Ok(outer),
    }
}

proof fn lemma_vni_bytes(v: nat)
    requires
        v <= 0xff_ffff,
    ensures
        be_bytes(v, 3)[0] as int * 65536 + be_bytes(v, 3)[1] as int * 256 + be_bytes(v, 3)[2] as int
            == v,
{
    let q = v / 256;
    let c = q / 256;
    assert(be_bytes(v, 3) == seq![(c % 256) as u8, (q % 256) as u8, (v % 256) as u8]) by {
        reveal_with_fuel(be_bytes, 4);
    }
    assert(c < 256) by (nonlinear_arith)
        requires
            v <= 0xff_ffff,
            q == v / 256,
            c == q / 256,
    {
    }
    assert(c % 256 == c);
    assert(c * 65536 + (q % 256) * 256 + v % 256 == v) by (nonlinear_arith)
        requires
            q == v / 256,
            c == q / 256,
    {
    }
}

/// Decapsulating what was encapsulated for a port gives back the inner
/// packet, whatever the packet and the port's VNI.
pub proof fn lemma_encap_decap_round_trip(inner: Seq<u8>, cfg: OverlayConfig)
    requires
        cfg.vni.wf(),
    ensures
        spec_decapsulate(spec_encapsulate(inner, cfg), cfg.vni) == Ok::<Seq<u8>, OverlayError>(
            inner,
        ),
{
    let h = spec_header(cfg);
    let a = be_bytes(cfg.phys_mac_dst.value as nat, 6);
    let b = be_bytes(cfg.phys_mac_src.value as nat, 6);
    let c = be_bytes(cfg.phys_ip_src.value as nat, 16);
    let d = be_bytes(cfg.boundary_services.ip.value as nat, 16);
    let e = be_bytes(cfg.vni.value as nat, 3);
    lemma_be_bytes_len(cfg.phys_mac_dst.value as nat, 6);
    lemma_be_bytes_len(cfg.phys_mac_src.value as nat, 6);
    lemma_be_bytes_len(cfg.phys_ip_src.value as nat, 16);
    lemma_be_bytes_len(cfg.boundary_services.ip.value as nat, 16);
    lemma_be_bytes_len(cfg.vni.value as nat, 3);
    lemma_vni_bytes(cfg.vni.value as nat);
    assert(h.len() == HEADER_LEN);
    let outer = h + inner;
    assert(outer[44] == e[0]);
    assert(outer[45] == e[1]);
    assert(outer[46] == e[2]);
    assert(outer.skip(HEADER_LEN as int) =~= inner);
}

} // verus!
