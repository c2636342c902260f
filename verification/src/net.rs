//! Which addresses the LAN server may bind: private, loopback and
//! link-local ones freely, anything public (or every interface at once)
//! only when the user has explicitly allowed it.
use vstd::prelude::*;
use crate::strings::{chars_of, push_str_chars, string_from, trim, trim_chars};

verus! {

/// An IP address as its octets.
#[derive(Clone, Copy, Debug)]
pub enum IpAddress {
    V4([u8; 4]),
    V6([u8; 16]),
}

/// Addresses that keep the server off the public internet: the private
/// IPv4 ranges (10/8, 172.16/12, 192.168/16), loopback (127/8, ::1),
/// link-local (169.254/16, fe80::/10) and IPv6 unique-local (fc00::/7).
pub open spec fn is_private_spec(ip: IpAddress) -> bool {
    match ip {
        IpAddress::V4(o) => {
            let a = o@[0];
            let b = o@[1];
            ||| a == 10
            ||| a == 172 && 16 <= b <= 31
            ||| a == 192 && b == 168
            ||| a == 127
            ||| a == 169 && b == 254
        },
        IpAddress::V6(o) => {
            ||| (forall|i: int| 0 <= i < 15 ==> o@[i] == 0) && o@[15] == 1
            ||| o@[0] == 0xfc || o@[0] == 0xfd
            ||| o@[0] == 0xfe && 0x80 <= o@[1] <= 0xbf
        },
    }
}

/// The IPv4 ranges, boundary by boundary: all of 10/8, 172.16/12,
/// 192.168/16, 127/8 and 169.254/16 is private; the 172 addresses on
/// either side of 172.16/12 (172.15.x.x, 172.32.x.x, ...) are not.
pub proof fn lemma_private_v4_ranges(o: [u8; 4])
    ensures
        o@[0] == 10 ==> is_private_spec(IpAddress::V4(o)),
        o@[0] == 172 && 16 <= o@[1] <= 31 ==> is_private_spec(IpAddress::V4(o)),
        o@[0] == 172 && (o@[1] < 16 || o@[1] > 31) ==> !is_private_spec(IpAddress::V4(o)),
        o@[0] == 192 && o@[1] == 168 ==> is_private_spec(IpAddress::V4(o)),
        o@[0] == 192 && o@[1] != 168 ==> !is_private_spec(IpAddress::V4(o)),
        o@[0] == 127 ==> is_private_spec(IpAddress::V4(o)),
        o@[0] == 169 && o@[1] == 254 ==> is_private_spec(IpAddress::V4(o)),
        o@[0] == 169 && o@[1] != 254 ==> !is_private_spec(IpAddress::V4(o)),
        o@[0] != 10 && o@[0] != 172 && o@[0] != 192 && o@[0] != 127 && o@[0] != 169
            ==> !is_private_spec(IpAddress::V4(o)),
{
}

/// The IPv6 ranges: loopback `::1`, unique-local fc00::/7 (first byte fc
/// or fd) and link-local fe80::/10 are private; an address whose first
/// byte is anything else, other than `::1`, is not.
pub proof fn lemma_private_v6_ranges(o: [u8; 16])
    ensures
        (forall|i: int| 0 <= i < 15 ==> o@[i] == 0) && o@[15] == 1 ==> is_private_spec(IpAddress::V6(o)),
        o@[0] == 0xfc || o@[0] == 0xfd ==> is_private_spec(IpAddress::V6(o)),
        o@[0] == 0xfe && 0x80 <= o@[1] <= 0xbf ==> is_private_spec(IpAddress::V6(o)),
        o@[0] == 0xfe && (o@[1] < 0x80 || o@[1] > 0xbf) ==> !is_private_spec(IpAddress::V6(o)),
        o@[0] != 0 && o@[0] != 0xfc && o@[0] != 0xfd && o@[0] != 0xfe ==> !is_private_spec(
            IpAddress::V6(o),
        ),
{
}

/// `0.0.0.0` or `::`: every interface.
pub open spec fn is_unspecified_spec(ip: IpAddress) -> bool {
    match ip {
        IpAddress::V4(o) => forall|i: int| 0 <= i < 4 ==> o@[i] == 0,
        IpAddress::V6(o) => forall|i: int| 0 <= i < 16 ==> o@[i] == 0,
    }
}

/// True if binding this address keeps the server off the public internet.
pub fn is_private(ip: &IpAddress) -> (b: bool)
    ensures
        b == is_private_spec(*ip),
{
    match ip {
        IpAddress::V4(o) => {
            let a = o[0];
            let b = o[1];
            a == 10 || (a == 172 && 16 <= b && b <= 31) || (a == 192 && b == 168) || a == 127 || (a
                == 169 && b == 254)
        },
        IpAddress::V6(o) => {
            let mut i: usize = 0;
            let mut zeros = true;
            while i < 15
                invariant
                    i <= 15,
                    zeros == (forall|j: int| 0 <= j < i ==> o@[j] == 0),
                decreases 15 - i,
            {
                zeros = zeros && o[i] == 0;
                i += 1;
            }
            (zeros && o[15] == 1) || o[0] == 0xfc || o[0] == 0xfd || (o[0] == 0xfe && 0x80 <= o[1]
                && o[1] <= 0xbf)
        },
    }
}

/// `0.0.0.0` or `::`.
pub fn is_unspecified(ip: &IpAddress) -> (b: bool)
    ensures
        b == is_unspecified_spec(*ip),
{
    match ip {
        IpAddress::V4(o) => o[0] == 0 && o[1] == 0 && o[2] == 0 && o[3] == 0,
        IpAddress::V6(o) => {
            let mut i: usize = 0;
            let mut zeros = true;
            while i < 16
                invariant
                    i <= 16,
                    zeros == (forall|j: int| 0 <= j < i ==> o@[j] == 0),
                decreases 16 - i,
            {
                zeros = zeros && o[i] == 0;
                i += 1;
            }
            zeros
        },
    }
}

/// Why an address was not bound.
#[derive(Clone, Copy, Debug)]
pub enum BindError {
    /// No `lan_bind` was set and no LAN address could be found.
    NoLanAddress,
    /// The address found for the LAN is not a private one.
    DetectedPublic(IpAddress),
    /// `lan_bind` is not an IP address.
    NotAnAddress,
    /// `lan_bind` is public or every interface, and that was not allowed.
    RefusedPublic(IpAddress),
}

/// The configured bind text as it is read: without surrounding whitespace.
/// Empty means "find the LAN address".
pub fn bind_text(lan_bind: &str) -> (t: String)
    ensures
        t@ == trim(lan_bind@),
{
    let cs = chars_of(lan_bind);
    let t = trim_chars(cs.as_slice());
    string_from(t.as_slice())
}

pub open spec fn check_detected_spec(ip: Option<IpAddress>, allow_public: bool) -> Result<IpAddress, BindError> {
    match ip {
        None => Err(BindError::NoLanAddress),
        Some(ip) => if !is_private_spec(ip) && !allow_public {
            Err(BindError::DetectedPublic(ip))
        } else {
            Ok(ip)
        },
    }
}

/// Decides on the address found for the LAN (when `lan_bind` is empty).
pub fn check_detected(ip: Option<IpAddress>, allow_public: bool) -> (r: Result<IpAddress, BindError>)
    ensures
        r == check_detected_spec(ip, allow_public),
{
    match ip {
        None => Err(BindError::NoLanAddress),
        Some(ip) => if !is_private(&ip) && !allow_public {
            Err(BindError::DetectedPublic(ip))
        } else {
            Ok(ip)
        },
    }
}

pub open spec fn check_explicit_spec(ip: Option<IpAddress>, allow_public: bool) -> Result<IpAddress, BindError> {
    match ip {
        None => Err(BindError::NotAnAddress),
        Some(ip) => if (is_unspecified_spec(ip) || !is_private_spec(ip)) && !allow_public {
            Err(BindError::RefusedPublic(ip))
        } else {
            Ok(ip)
        },
    }
}

/// Decides on the address `lan_bind` names (`None` when it does not parse
/// as one).
pub fn check_explicit(ip: Option<IpAddress>, allow_public: bool) -> (r: Result<IpAddress, BindError>)
    ensures
        r == check_explicit_spec(ip, allow_public),
{
    match ip {
        None => Err(BindError::NotAnAddress),
        Some(ip) => if (is_unspecified(&ip) || !is_private(&ip)) && !allow_public {
            Err(BindError::RefusedPublic(ip))
        } else {
            Ok(ip)
        },
    }
}

/// Without the explicit override, the server only ever binds a private
/// address, and never every interface at once.
pub proof fn lemma_no_public_bind_without_override(detected: Option<IpAddress>, named: Option<IpAddress>)
    ensures
        check_detected_spec(detected, false) matches Ok(ip) ==> is_private_spec(ip),
        check_explicit_spec(named, false) matches Ok(ip) ==> is_private_spec(ip)
            && !is_unspecified_spec(ip),
{
}

/// With the override, any address that was found or that parses is used
/// as it is.
pub proof fn lemma_override_binds_as_given(detected: IpAddress, named: IpAddress)
    ensures
        check_detected_spec(Some(detected), true) == Ok::<IpAddress, BindError>(detected),
        check_explicit_spec(Some(named), true) == Ok::<IpAddress, BindError>(named),
{
}

pub open spec fn bind_error_message_spec(e: BindError, shown: Seq<char>) -> Seq<char> {
    match e {
        BindError::NoLanAddress => "could not detect a LAN address; set `lan_bind` in config.toml to this machine's LAN IP"@,
        BindError::DetectedPublic(_) => "detected address "@ + shown
            + " is not a private LAN address; set `lan_bind` explicitly, or `lan_allow_public = true` if you really mean to serve the public internet"@,
        BindError::NotAnAddress => "`lan_bind` is not a valid IP address: "@ + shown,
        BindError::RefusedPublic(_) => "refusing to bind "@ + shown
            + ": it is not a private LAN address. Set `lan_bind` to this machine's LAN IP, or set `lan_allow_public = true` in config.toml to override"@,
    }
}

/// What the user is told, with `shown` the address as written (the
/// configured text for `NotAnAddress`). Every refusal of a public address
/// names the `lan_allow_public` override.
pub fn bind_error_message(e: &BindError, shown: &str) -> (m: String)
    ensures
        m@ == bind_error_message_spec(*e, shown@),
{
    let mut v: Vec<char> = Vec::new();
    match e {
        BindError::NoLanAddress => {
            push_str_chars(
                &mut v,
                "could not detect a LAN address; set `lan_bind` in config.toml to this machine's LAN IP",
            );
        },
        BindError::DetectedPublic(_) => {
            push_str_chars(&mut v, "detected address ");
            push_str_chars(&mut v, shown);
            push_str_chars(
                &mut v,
                " is not a private LAN address; set `lan_bind` explicitly, or `lan_allow_public = true` if you really mean to serve the public internet",
            );
        },
        BindError::NotAnAddress => {
            push_str_chars(&mut v, "`lan_bind` is not a valid IP address: ");
            push_str_chars(&mut v, shown);
        },
        BindError::RefusedPublic(_) => {
            push_str_chars(&mut v, "refusing to bind ");
            push_str_chars(&mut v, shown);
            push_str_chars(
                &mut v,
                ": it is not a private LAN address. Set `lan_bind` to this machine's LAN IP, or set `lan_allow_public = true` in config.toml to override",
            );
        },
    }
    assert(v@ =~= bind_error_message_spec(*e, shown@));
    string_from(v.as_slice())
}

} // verus!
