use drive_wallpaper::seen::SeenSet;
use drive_wallpaper::store::set_file_seen;
use drive_wallpaper::text::{char_at, char_count, piece};

#[test]
fn characters_of_plain_text() {
    let text = "hello\nworld";
    assert!(text.is_ascii());
    for plain in [true, false] {
        assert_eq!(char_count(text, plain), 11);
        assert_eq!(char_at(text, 0, plain), 'h');
        assert_eq!(char_at(text, 5, plain), '\n');
        assert_eq!(char_at(text, 10, plain), 'd');
        assert_eq!(piece(text, 6, 11, plain), "world");
        assert_eq!(piece(text, 3, 3, plain), "");
    }
}

#[test]
fn characters_of_other_text() {
    let text = "né\u{10348}x";
    assert_eq!(char_count(text, false), 4);
    assert_eq!(char_at(text, 1, false), 'é');
    assert_eq!(char_at(text, 2, false), '\u{10348}');
    assert_eq!(char_at(text, 3, false), 'x');
    assert_eq!(piece(text, 1, 3, false), "é\u{10348}");
    assert_eq!(char_count("", false), 0);
    assert_eq!(char_count("", true), 0);
}

#[test]
fn persisted_text_may_hold_any_characters() {
    let seen = SeenSet::parse("zé\n\nab\nçà\nzé");
    assert_eq!(seen.len(), 3);
    assert!(seen.contains("zé"));
    assert!(seen.contains("çà"));
    assert_eq!(seen.render(), "ab\nzé\nçà");
    assert_eq!(set_file_seen(Some("zé\nab"), "b\u{10348}"), Ok("ab\nb\u{10348}\nzé".to_string()));
}

#[test]
fn persisted_order_is_the_order_of_strings() {
    let ids = ["b", "B", "a10", "a9", "_", "-", "é", "z", "1x", "\u{ffff}", "\u{10000}"];
    let mut seen = SeenSet::new();
    for id in ids {
        assert!(seen.insert(id));
    }
    let mut sorted: Vec<String> = ids.iter().map(|id| id.to_string()).collect();
    sorted.sort();
    assert_eq!(seen.render(), sorted.join("\n"));
}
