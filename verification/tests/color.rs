use hyprcube::color::{ColorError, HexColor};

#[test]
fn roundtrip_rgb() {
    let hex = "#89b4fa";
    let color = HexColor::from_hex(hex).unwrap();
    assert_eq!(color.to_hex(), hex);
}

#[test]
fn roundtrip_rgba() {
    let hex = "#1e1e2ed9";
    let color = HexColor::from_hex(hex).unwrap();
    assert_eq!(color.to_hex(), hex);
}

#[test]
fn invalid_hex() {
    assert!(HexColor::from_hex("#zz0000").is_err());
    assert!(HexColor::from_hex("#123").is_err());
}

#[test]
fn invalid_hex_message_names_the_digits() {
    match HexColor::from_hex("#12345") {
        Err(ColorError::InvalidHex(m)) => assert_eq!(m, "#12345"),
        Ok(_) => panic!("accepted a five-digit color"),
    }
}

#[test]
fn hex_channels_are_read_in_order() {
    let c = HexColor::from_hex("0a0b0c").unwrap();
    assert_eq!((c.r, c.g, c.b, c.a), (10, 11, 12, 255));
}

#[test]
fn hypr_rgba_roundtrip() {
    let c = HexColor::from_hypr_rgba("rgba(89b4faee)").unwrap();
    assert_eq!((c.r, c.g, c.b, c.a), (0x89, 0xb4, 0xfa, 0xee));
    assert_eq!(c.to_hypr_rgba(), "rgba(89b4faee)");
    assert!(HexColor::from_hypr_rgba("rgb(89b4fa)").is_none());
}
