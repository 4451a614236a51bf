//! Recognises the ICMP replies that a probe elicits in inbound frames.
use vstd::prelude::*;

verus! {

/// ICMP type of a time-exceeded message.
pub const ICMP_TIME_EXCEEDED: u8 = 11;

/// ICMP type of a destination-unreachable message.
pub const ICMP_DESTINATION_UNREACHABLE: u8 = 3;

/// How frames arrive from an interface: as full Ethernet frames, or with a
/// short link header of fixed length that stands before the IPv4 header.
#[derive(Clone, Copy, Debug, PartialEq, Eq, Structural)]
pub enum LinkHeader {
    Ethernet,
    Stripped { len: usize },
}

/// Where the IPv4 header starts in `frame`, if the link layer carries IPv4.
pub open spec fn ipv4_start(frame: Seq<u8>, link: LinkHeader) -> Option<int> {
    match link {
        LinkHeader::Ethernet => if frame.len() >= 14 && frame[12] == 0x08 && frame[13] == 0x00 {
            Some(14)
        } else {
            None
        },
        LinkHeader::Stripped { len } => if len <= frame.len() {
            Some(len as int)
        } else {
            None
        },
    }
}

/// The IPv4 header at `o` is complete, carries ICMP, and the ICMP message
/// after it is complete and reports time exceeded or an unreachable destination.
pub open spec fn is_icmp_error_reply(frame: Seq<u8>, o: int) -> bool {
    let header_len = (frame[o] % 16) * 4;
    &&& 0 <= o
    &&& o + 20 <= frame.len()
    &&& frame[o] / 16 == 4
    &&& header_len >= 20
    &&& o + header_len + 4 <= frame.len()
    &&& frame[o + 9] == 1
    &&& (frame[o + header_len] == ICMP_TIME_EXCEEDED || frame[o + header_len]
        == ICMP_DESTINATION_UNREACHABLE)
}

/// The source address of the outer IPv4 header of a relevant ICMP reply;
/// `None` for every other frame.
pub open spec fn reply_source(frame: Seq<u8>, link: LinkHeader) -> Option<Seq<u8>> {
    match ipv4_start(frame, link) {
        Some(o) => if is_icmp_error_reply(frame, o) {
            Some(frame.subrange(o + 12, o + 16))
        } else {
            None
        },
        None => None,
    }
}

/// The address of the router that sent `frame`, when `frame` is an ICMP
/// time-exceeded or destination-unreachable reply; `None` otherwise.
pub fn classify_frame(frame: &[u8], link: LinkHeader) -> (r: Option<[u8; 4]>)
    ensures
        match r {
            Some(a) => reply_source(frame@, link) == Some(a@),
            None => reply_source(frame@, link) is None,
        },
{
    let n = frame.len();
    let o: usize = match link {
        LinkHeader::Ethernet => {
            if n < 14 || frame[12] != 0x08 || frame[13] != 0x00 {
                return None;
            }
            14
        },
        LinkHeader::Stripped { len } => {
            if len > n {
                return None;
            }
            len
        },
    };
    if n - o < 20 {
        return None;
    }
    let first = frame[o];
    if first / 16 != 4 {
        return None;
    }
    let header_len = ((first % 16) as usize) * 4;
    if header_len < 20 || n - o - 20 < header_len - 20 + 4 {
        return None;
    }
    if frame[o + 9] != 1 {
        return None;
    }
    let icmp_type = frame[o + header_len];
    if icmp_type != ICMP_TIME_EXCEEDED && icmp_type != ICMP_DESTINATION_UNREACHABLE {
        return None;
    }
    let a = [frame[o + 12], frame[o + 13], frame[o + 14], frame[o + 15]];
    assert(a@ =~= frame@.subrange(o + 12, o + 16));
    Some(a)
}

} // verus!
