//! Color arithmetic and textual parsing, including the exact fixed-point
//! scaling values and the hex round trips.

use launchr::ui::color::Color;
use launchr::ui::color::ColorParseError;
use launchr::ui::color::scale_u8;

#[test]
fn test_multiply() {
    assert_eq!(scale_u8(0, 0), 0);
    assert_eq!(scale_u8(0, 255), 0);
    assert_eq!(scale_u8(255, 0), 0);
    assert_eq!(scale_u8(255, 255), 255);
    assert_eq!(scale_u8(255, 128), 128);
    assert_eq!(scale_u8(128, 255), 128);
    assert_eq!(scale_u8(128, 128), 64);
}

#[test]
fn test_deserialize_rgb_hex() {
    let text: String = serde_json::from_str("\"#192330\"").unwrap();
    let color = Color::parse_hex(&text).unwrap();
    assert_eq!(color.red(), 25);
    assert_eq!(color.green(), 35);
    assert_eq!(color.blue(), 48);
    assert_eq!(color.alpha(), 255);
}

#[test]
fn test_deserialize_rgba_hex() {
    let text: String = serde_json::from_str("\"#00ff00ff\"").unwrap();
    let color = Color::parse_hex(&text).unwrap();
    assert_eq!(color.red(), 0);
    assert_eq!(color.green(), 255);
    assert_eq!(color.blue(), 0);
    assert_eq!(color.alpha(), 255);
}

#[test]
fn test_deserialize_rgba_hex_with_alpha() {
    let text: String = serde_json::from_str("\"#0000ff80\"").unwrap();
    let color = Color::parse_hex(&text).unwrap();
    assert_eq!(color.red(), 0);
    assert_eq!(color.green(), 0);
    assert_eq!(color.blue(), 255);
    assert_eq!(color.alpha(), 128);
}

#[test]
fn test_deserialize_without_hash() {
    let text: String = serde_json::from_str("\"ffffff\"").unwrap();
    let color = Color::parse_hex(&text).unwrap();
    assert_eq!(color.red(), 255);
    assert_eq!(color.green(), 255);
    assert_eq!(color.blue(), 255);
    assert_eq!(color.alpha(), 255);
}

#[test]
fn test_deserialize_invalid_length() {
    let text: String = serde_json::from_str("\"#fff\"").unwrap();
    let result = Color::parse_hex(&text);
    assert!(result.is_err());
}

#[test]
fn test_deserialize_invalid_hex() {
    let text: String = serde_json::from_str("\"#gggggg\"").unwrap();
    let result = Color::parse_hex(&text);
    assert!(result.is_err());
}

#[test]
fn test_deserialize_toml() {
    let toml_str = "color = \"#ff8000\"";
    let table: toml::Table = toml_str.parse().unwrap();
    let color = Color::parse_hex(table.get("color").unwrap().as_str().unwrap()).unwrap();
    assert_eq!(color.red(), 255);
    assert_eq!(color.green(), 128);
    assert_eq!(color.blue(), 0);
    assert_eq!(color.alpha(), 255);
}

#[test]
fn test_hex_round_trip_values() {
    let c = Color::parse_hex("#ff8000").unwrap();
    assert_eq!(c.to_array(), [255, 128, 0, 255]);
    let c = Color::parse_hex("#00ff00ff").unwrap();
    assert_eq!(c.to_array(), [0, 255, 0, 255]);
    assert!(Color::parse_hex("#fff").is_err());
    assert!(Color::parse_hex("#gggggg").is_err());
}

#[test]
fn test_parse_error_stages() {
    assert_eq!(Color::parse_hex("#fff").unwrap_err(), ColorParseError::Length);
    assert_eq!(Color::parse_hex("zz0000").unwrap_err(), ColorParseError::Red);
    assert_eq!(Color::parse_hex("00zz00").unwrap_err(), ColorParseError::Green);
    assert_eq!(Color::parse_hex("0000zz").unwrap_err(), ColorParseError::Blue);
    assert_eq!(Color::parse_hex("000000ffzz").unwrap_err(), ColorParseError::Length);
    assert_eq!(Color::parse_hex("000000zz").unwrap_err(), ColorParseError::Alpha);
    assert_eq!(Color::parse_hex("AbCdEf").unwrap().to_array(), [171, 205, 239, 255]);
}

#[test]
fn test_premultiply() {
    let c = Color::from_rgba(255, 255, 255, 128);
    let p = c.premultiply();
    assert_eq!(p.to_array(), [128, 128, 128, 128]);
    let opaque = Color::from_rgb(10, 20, 30);
    assert_eq!(opaque.premultiply().to_array(), [10, 20, 30, 255]);
    let c = Color::from_rgba(200, 100, 50, 0);
    assert_eq!(c.premultiply().to_array(), [0, 0, 0, 0]);
}
