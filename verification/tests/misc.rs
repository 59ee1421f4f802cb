use tasknet::sort::Field;
use tasknet::styles::{light_theme, Color, Swatch};
use tasknet::sync::{ws_url, SyncMessage};

#[test]
fn field_headings() {
    assert_eq!(Field::Age.to_string(), "Age");
    assert_eq!(Field::Scheduled.to_string(), "Scheduled");
    assert_eq!(Field::Urgency.to_string(), "Urgency");
    assert_eq!(Field::Description.to_string(), "Description");
}

#[test]
fn light_theme_colours() {
    assert_eq!(light_theme(Color::Background), Swatch::Hex(0xE5E7EB));
    assert_eq!(light_theme(Color::MainText), Swatch::White);
    assert_eq!(light_theme(Color::Primary), Swatch::Blue(3));
    assert_eq!(light_theme(Color::MutedSecondary), Swatch::Red(2));
    assert_eq!(light_theme(Color::Highlight), Swatch::Green(4));
}

#[test]
fn sync_url_and_message() {
    assert_eq!(ws_url("localhost:8080", "/"), "ws://localhost:8080/sync");
    assert_eq!(ws_url("example.org", "/app/"), "ws://example.org/app/sync");
    let m = SyncMessage::Message(vec![1, 2, 3]);
    assert_eq!(m.bytes(), &[1, 2, 3]);
}
