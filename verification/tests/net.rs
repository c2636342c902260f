use melodie::net::{
    bind_error_message, bind_text, check_detected, check_explicit, is_private, is_unspecified,
    BindError, IpAddress,
};
use melodie::pairing::{pairing_url, qr_rgb, render_qr};

fn v4(a: u8, b: u8, c: u8, d: u8) -> [u8; 4] {
    [a, b, c, d]
}

fn private(o: [u8; 4]) -> bool {
    is_private(&IpAddress::V4(o))
}

fn private6(o: [u8; 16]) -> bool {
    is_private(&IpAddress::V6(o))
}

/// Dotted-quad IPv4 text, as the configuration holds it.
fn parse_v4(s: &str) -> Option<[u8; 4]> {
    let parts: Vec<&str> = s.split('.').collect();
    if parts.len() != 4 {
        return None;
    }
    let mut o = [0u8; 4];
    for (i, p) in parts.iter().enumerate() {
        if p.is_empty() || !p.bytes().all(|b| b.is_ascii_digit()) {
            return None;
        }
        o[i] = p.parse().ok()?;
    }
    Some(o)
}

/// An explicitly configured IPv4 bind address, decided the way the server does.
fn resolve_bind(lan_bind: &str, allow_public: bool) -> Result<[u8; 4], String> {
    let text = bind_text(lan_bind);
    let parsed = parse_v4(&text);
    match check_explicit(parsed.map(IpAddress::V4), allow_public) {
        Ok(IpAddress::V4(o)) => Ok(o),
        Ok(IpAddress::V6(_)) => Err("not IPv4".to_string()),
        Err(e) => Err(bind_error_message(&e, &text)),
    }
}

#[test]
fn private_ranges_are_private_and_public_ones_are_not() {
    assert!(private(v4(192, 168, 1, 20)));
    assert!(private(v4(10, 0, 0, 5)));
    assert!(private(v4(172, 16, 4, 4)));
    assert!(private(v4(127, 0, 0, 1)), "loopback counts as safe to bind");
    assert!(private(v4(169, 254, 3, 3)), "link-local counts as safe to bind");
    assert!(!private(v4(8, 8, 8, 8)));
    assert!(!private(v4(172, 32, 0, 1)), "172.32 is outside 172.16/12");
}

#[test]
fn ipv6_loopback_unique_local_and_link_local_are_private() {
    let mut loopback = [0u8; 16];
    loopback[15] = 1;
    assert!(private6(loopback));
    let with_head = |a: u8, b: u8| {
        let mut o = [0u8; 16];
        o[0] = a;
        o[1] = b;
        o[15] = 1;
        o
    };
    assert!(private6(with_head(0xfd, 0x12)));
    assert!(private6(with_head(0xfc, 0x00)));
    assert!(private6(with_head(0xfe, 0x80)));
    assert!(private6(with_head(0xfe, 0xbf)));
    assert!(!private6(with_head(0xfe, 0xc0)));
    assert!(!private6(with_head(0x20, 0x01)));
    assert!(!private6([0u8; 16]));
    assert!(is_unspecified(&IpAddress::V6([0u8; 16])));
    assert!(is_unspecified(&IpAddress::V4([0, 0, 0, 0])));
    assert!(!is_unspecified(&IpAddress::V4([0, 0, 0, 1])));
}

#[test]
fn explicit_private_bind_is_allowed() {
    let ip = resolve_bind("192.168.1.20", false).unwrap();
    assert_eq!(ip, v4(192, 168, 1, 20));
}

#[test]
fn explicit_public_bind_is_refused_without_override() {
    let err = resolve_bind("8.8.8.8", false).unwrap_err();
    assert!(err.contains("lan_allow_public"), "error must name the override: {err}");
}

#[test]
fn explicit_public_bind_is_allowed_with_override() {
    assert_eq!(resolve_bind("8.8.8.8", true).unwrap(), v4(8, 8, 8, 8));
}

#[test]
fn wildcard_bind_needs_the_override_too() {
    assert!(resolve_bind("0.0.0.0", false).is_err());
    assert_eq!(resolve_bind("0.0.0.0", true).unwrap(), v4(0, 0, 0, 0));
}

#[test]
fn garbage_bind_is_an_error_not_a_panic() {
    assert!(resolve_bind("not-an-ip", false).is_err());
    assert_eq!(
        resolve_bind(" not-an-ip ", true).unwrap_err(),
        "`lan_bind` is not a valid IP address: not-an-ip"
    );
}

#[test]
fn detected_addresses_follow_the_same_rule() {
    assert!(matches!(check_detected(None, true), Err(BindError::NoLanAddress)));
    assert!(matches!(check_detected(Some(IpAddress::V4([8, 8, 8, 8])), false), Err(BindError::DetectedPublic(_))));
    assert!(check_detected(Some(IpAddress::V4([8, 8, 8, 8])), true).is_ok());
    assert!(check_detected(Some(IpAddress::V4([192, 168, 0, 2])), false).is_ok());
    let msg = bind_error_message(&BindError::DetectedPublic(IpAddress::V4([8, 8, 8, 8])), "8.8.8.8");
    assert!(msg.starts_with("detected address 8.8.8.8 is not a private LAN address"), "{msg}");
    assert!(msg.contains("lan_allow_public"), "{msg}");
}

#[test]
fn pairing_url_is_the_format_the_android_app_parses() {
    let ip = v4(192, 168, 1, 20);
    let host = format!("{}.{}.{}.{}", ip[0], ip[1], ip[2], ip[3]);
    assert_eq!(pairing_url(&host, 4533, "abc123"), "melodie://192.168.1.20:4533/abc123");
}

#[test]
fn qr_rgb_produces_a_square_rgb_buffer_with_a_quiet_zone() {
    let (buf, side) = qr_rgb("melodie://192.168.1.20:4533/abc123", 4, 4).unwrap();
    assert!(side > 0);
    assert_eq!(buf.len(), (side as usize) * (side as usize) * 3);
    // The quiet zone must be white, or scanners fail to lock on.
    assert_eq!(&buf[0..3], &[255, 255, 255]);
    // And something must actually be drawn.
    assert!(buf.iter().any(|b| *b == 0), "QR matrix has no dark modules");
}

#[test]
fn qr_rgb_side_is_the_code_plus_quiet_zone_scaled() {
    let code = qrcode::QrCode::new("melodie".as_bytes()).unwrap();
    let (buf, side) = qr_rgb("melodie", 3, 2).unwrap();
    assert_eq!(side as usize, (code.width() + 4) * 3);
    assert_eq!(buf.len(), (side as usize).pow(2) * 3);
}

#[test]
fn render_qr_draws_dark_modules_scaled_inside_the_border() {
    // A 2x2 code: dark on the diagonal.
    let (buf, side) = render_qr(2, &[true, false, false, true], 2, 1);
    assert_eq!(side, 8);
    let px = |x: usize, y: usize| buf[(y * side + x) * 3];
    assert_eq!(px(0, 0), 255);
    assert_eq!(px(1, 1), 255);
    assert_eq!(px(2, 2), 0);
    assert_eq!(px(3, 3), 0);
    assert_eq!(px(4, 2), 255);
    assert_eq!(px(4, 4), 0);
    assert_eq!(px(5, 5), 0);
    assert_eq!(px(6, 6), 255);
    assert_eq!(render_qr(2, &[true, true, true, true], 0, 1).0.len(), 0);
}
