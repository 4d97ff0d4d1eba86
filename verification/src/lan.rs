//! Guarding the LAN proxy: a request may only reach a discovered peer at a
//! private or local-network address, never an arbitrary host.

use vstd::prelude::*;
use crate::text::{chars_of, eq_exec};

verus! {

/// An address as parsed from text: IPv4 or IPv6 octets, or not an address.
pub enum IpOctets {
    V4([u8; 4]),
    V6([u8; 16]),
    Invalid,
}

/// HTTP 400.
pub const BAD_REQUEST: u16 = 400;

/// HTTP 403.
pub const FORBIDDEN: u16 = 403;

/// `Ipv4Addr::is_loopback` (127.0.0.0/8), `is_multicast` (224.0.0.0/4) and
/// `is_unspecified` (0.0.0.0).
pub open spec fn v4_special(o: Seq<u8>) -> bool {
    o[0] == 127 || (224 <= o[0] && o[0] <= 239) || (o[0] == 0 && o[1] == 0 && o[2] == 0 && o[3] == 0)
}

/// `Ipv6Addr::is_loopback` (::1), `is_multicast` (ff00::/8) and
/// `is_unspecified` (::).
pub open spec fn v6_special(o: Seq<u8>) -> bool {
    (forall|i: int| 0 <= i < 15 ==> o[i] == 0) && (o[15] == 1 || o[15] == 0) || o[0] == 0xff
}

/// An IPv4 address a peer may have: not link-local (169.254/16), and in an
/// RFC 1918 private range or the CGNAT range 100.64.0.0/10.
pub open spec fn v4_allowed(o: Seq<u8>) -> bool {
    !(o[0] == 169 && o[1] == 254) && (o[0] == 10 || (o[0] == 172 && 16 <= o[1] && o[1] <= 31) || (o[0]
        == 192 && o[1] == 168) || (o[0] == 100 && 64 <= o[1] && o[1] <= 127))
}

/// An IPv6 address a peer may have: not link-local (fe80::/10) and a unique
/// local address (fc00::/7).
pub open spec fn v6_allowed(o: Seq<u8>) -> bool {
    !(o[0] == 0xfe && 0x80 <= o[1] && o[1] <= 0xbf) && (o[0] == 0xfc || o[0] == 0xfd)
}

/// The verdict on a proxied request to `(addr, port)`: forbidden unless the
/// peer was discovered; a bad request when the address does not parse;
/// forbidden for loopback, multicast, unspecified, link-local and public
/// addresses.
pub open spec fn spec_validate_peer(peers: Seq<(String, u16)>, addr: Seq<char>, port: u16, ip: IpOctets) -> Result<(), u16> {
    if !(exists|i: int| 0 <= i < peers.len() && (#[trigger] peers[i]).0@ == addr && peers[i].1 == port) {
        Err(FORBIDDEN)
    } else {
        match ip {
            IpOctets::Invalid => Err(BAD_REQUEST),
            IpOctets::V4(o) => if v4_special(o@) || !v4_allowed(o@) {
                Err(FORBIDDEN)
            } else {
                Ok(())
            },
            IpOctets::V6(o) => if v6_special(o@) || !v6_allowed(o@) {
                Err(FORBIDDEN)
            } else {
                Ok(())
            },
        }
    }
}

/// Check a proxied LAN request (see [`spec_validate_peer`]); `ip` is `addr`
/// parsed as an IP address.
pub fn validate_peer(peers: &Vec<(String, u16)>, addr: &str, port: u16, ip: &IpOctets) -> (r: Result<(), u16>)
    ensures
        r == spec_validate_peer(peers@, addr@, port, *ip),
{
    let a = chars_of(addr);
    let mut found = false;
    let mut i: usize = 0;
    while i < peers.len() && !found
        invariant
            i <= peers.len(),
            a@ == addr@,
            found ==> i < peers.len() && peers@[i as int].0@ == addr@ && peers@[i as int].1 == port,
            !found ==> forall|k: int| 0 <= k < i ==> !((#[trigger] peers@[k]).0@ == addr@ && peers@[k].1 == port),
        decreases peers.len() - i, if found { 0int } else { 1int },
    {
        if peers[i].1 == port && eq_exec(&chars_of(peers[i].0.as_str()), &a) {
            found = true;
        } else {
            i += 1;
        }
    }
    if !found {
        return Err(FORBIDDEN);
    }
    match ip {
        IpOctets::Invalid => Err(BAD_REQUEST),
        IpOctets::V4(o) => {
            let special = o[0] == 127 || (224 <= o[0] && o[0] <= 239) || (o[0] == 0 && o[1] == 0 && o[2] == 0 && o[3] == 0);
            let allowed = !(o[0] == 169 && o[1] == 254) && (o[0] == 10 || (o[0] == 172 && 16 <= o[1] && o[1] <= 31)
                || (o[0] == 192 && o[1] == 168) || (o[0] == 100 && 64 <= o[1] && o[1] <= 127));
            if special || !allowed {
                Err(FORBIDDEN)
            } else {
                Ok(())
            }
        },
        IpOctets::V6(o) => {
            let mut zero = true;
            let mut k: usize = 0;
            while k < 15
                invariant
                    k <= 15,
                    zero <==> forall|m: int| 0 <= m < k ==> o@[m] == 0,
                decreases 15 - k,
            {
                if o[k] != 0 {
                    zero = false;
                }
                k += 1;
            }
            let special = zero && (o[15] == 1 || o[15] == 0) || o[0] == 0xff;
            let allowed = !(o[0] == 0xfe && 0x80 <= o[1] && o[1] <= 0xbf) && (o[0] == 0xfc || o[0] == 0xfd);
            if special || !allowed {
                Err(FORBIDDEN)
            } else {
                Ok(())
            }
        },
    }
}

} // verus!
