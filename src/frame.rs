//! Bounds-checked reads of the link-layer, network-layer and transport-layer
//! headers of one frame. Every read is preceded by a check of the remaining
//! span; nothing past the end of the frame is ever touched.
use vstd::prelude::*;

verus! {

/// Length of an Ethernet header: two 6-byte addresses and a 2-byte type.
pub const ETH_HDR_LEN: usize = 14;

/// Offset of the EtherType field within the Ethernet header.
pub const ETH_TYPE_OFFSET: usize = 12;

/// EtherType of an IPv4 payload.
pub const ETH_P_IP: u16 = 0x0800;

/// Length of an IPv4 header without options.
pub const IPV4_HDR_LEN: usize = 20;

/// Offset of the protocol field within the IPv4 header.
pub const IPV4_PROTO_OFFSET: usize = 9;

/// Offset of the source address within the IPv4 header.
pub const IPV4_SRC_OFFSET: usize = 12;

/// Length of a TCP header without options.
pub const TCP_HDR_LEN: usize = 20;

/// Length of a UDP header.
pub const UDP_HDR_LEN: usize = 8;

/// IP protocol number of TCP.
pub const IPPROTO_TCP: u8 = 6;

/// IP protocol number of UDP.
pub const IPPROTO_UDP: u8 = 17;

/// Why a frame could not be read.
#[derive(Clone, Copy, Debug, PartialEq, Eq, Structural)]
pub enum FrameError {
    /// A header does not fit in what is left of the frame.
    Truncated,
    /// The transport protocol is neither TCP nor UDP.
    UnsupportedProtocol,
}

/// Big-endian 16-bit value of the two bytes at `at`.
pub open spec fn be16(s: Seq<u8>, at: int) -> int {
    s[at] as int * 256 + s[at + 1] as int
}

/// Big-endian 32-bit value of the four bytes at `at`.
pub open spec fn be32(s: Seq<u8>, at: int) -> int {
    s[at] as int * 16777216 + s[at + 1] as int * 65536 + s[at + 2] as int * 256 + s[at + 3] as int
}

/// Whether a header of `size` bytes at `offset` lies inside the frame.
pub open spec fn fits(s: Seq<u8>, offset: int, size: int) -> bool {
    offset + size <= s.len()
}

/// The source address of an IPv4 frame in host order, `None` for a frame of
/// another link-layer protocol, and `Truncated` where a header to be read
/// does not fit.
pub open spec fn ipv4_source(s: Seq<u8>) -> Result<Option<u32>, FrameError> {
    if !fits(s, 0, ETH_HDR_LEN as int) {
        Err(FrameError::Truncated)
    } else if be16(s, ETH_TYPE_OFFSET as int) != ETH_P_IP as int {
        Ok(None)
    } else if !fits(s, ETH_HDR_LEN as int, IPV4_HDR_LEN as int) {
        Err(FrameError::Truncated)
    } else {
        Ok(Some(be32(s, ETH_HDR_LEN + IPV4_SRC_OFFSET) as u32))
    }
}

/// The source address and source port of a TCP or UDP datagram over IPv4;
/// `None` for a frame of another link-layer protocol.
pub open spec fn source_endpoint_of(s: Seq<u8>) -> Result<Option<(u32, u16)>, FrameError> {
    match ipv4_source(s) {
        Err(e) => Err(e),
        Ok(None) => Ok(None),
        Ok(Some(addr)) => {
            let proto = s[ETH_HDR_LEN + IPV4_PROTO_OFFSET];
            let l4 = (ETH_HDR_LEN + IPV4_HDR_LEN) as int;
            if proto == IPPROTO_TCP {
                if fits(s, l4, TCP_HDR_LEN as int) {
                    Ok(Some((addr, be16(s, l4) as u16)))
                } else {
                    Err(FrameError::Truncated)
                }
            } else if proto == IPPROTO_UDP {
                if fits(s, l4, UDP_HDR_LEN as int) {
                    Ok(Some((addr, be16(s, l4) as u16)))
                } else {
                    Err(FrameError::Truncated)
                }
            } else {
                Err(FrameError::UnsupportedProtocol)
            }
        },
    }
}

/// Checks that a header of `size` bytes at `offset` lies inside the frame and
/// hands back the offset at which it may be read.
pub fn ptr_at(frame: &[u8], offset: usize, size: usize) -> (r: Result<usize, FrameError>)
    ensures
        fits(frame@, offset as int, size as int) ==> r == Ok::<usize, FrameError>(offset),
        !fits(frame@, offset as int, size as int) ==> r == Err::<usize, FrameError>(
            FrameError::Truncated,
        ),
{
    if offset > frame.len() || size > frame.len() - offset {
        Err(FrameError::Truncated)
    } else {
        Ok(offset)
    }
}

/// Reads a big-endian 16-bit value.
pub fn read_be16(frame: &[u8], at: usize) -> (r: u16)
    requires
        at + 2 <= frame@.len(),
    ensures
        r as int == be16(frame@, at as int),
{
    (frame[at] as u16) * 256 + frame[at + 1] as u16
}

/// Reads a big-endian 32-bit value.
pub fn read_be32(frame: &[u8], at: usize) -> (r: u32)
    requires
        at + 4 <= frame@.len(),
    ensures
        r as int == be32(frame@, at as int),
{
    (frame[at] as u32) * 16777216 + (frame[at + 1] as u32) * 65536 + (frame[at + 2] as u32) * 256
        + frame[at + 3] as u32
}

/// The source address of an IPv4 frame, converted to host byte order.
pub fn parse_ipv4(frame: &[u8]) -> (r: Result<Option<u32>, FrameError>)
    ensures
        r == ipv4_source(frame@),
{
    let eth = ptr_at(frame, 0, ETH_HDR_LEN)?;
    let eth_proto = read_be16(frame, eth + ETH_TYPE_OFFSET);
    if eth_proto != ETH_P_IP {
        return Ok(None);
    }
    let ip = ptr_at(frame, ETH_HDR_LEN, IPV4_HDR_LEN)?;
    Ok(Some(read_be32(frame, ip + IPV4_SRC_OFFSET)))
}

/// The source address and port of a TCP or UDP datagram over IPv4.
pub fn source_endpoint(frame: &[u8]) -> (r: Result<Option<(u32, u16)>, FrameError>)
    ensures
        r == source_endpoint_of(frame@),
{
    let addr = match parse_ipv4(frame)? {
        Some(a) => a,
        None => return Ok(None),
    };
    let proto = frame[ETH_HDR_LEN + IPV4_PROTO_OFFSET];
    let l4 = ETH_HDR_LEN + IPV4_HDR_LEN;
    if proto == IPPROTO_TCP {
        let tcp = ptr_at(frame, l4, TCP_HDR_LEN)?;
        Ok(Some((addr, read_be16(frame, tcp))))
    } else if proto == IPPROTO_UDP {
        let udp = ptr_at(frame, l4, UDP_HDR_LEN)?;
        Ok(Some((addr, read_be16(frame, udp))))
    } else {
        Err(FrameError::UnsupportedProtocol)
    }
}

} // verus!
