use sonic_deck::shortcut::{capitalize_first, normalize_hotkey_string, normalize_key};
use sonic_deck::text::{contains_text, join_with_plus, split_at_plus, trim};

fn reference_capitalize(s: &str) -> String {
    let mut chars = s.chars();
    match chars.next() {
        None => String::new(),
        Some(first) => first.to_uppercase().chain(chars).collect(),
    }
}

fn reference_normalize(hotkey: &str) -> String {
    hotkey
        .split('+')
        .map(|part| {
            let trimmed = part.trim().to_lowercase();
            match trimmed.as_str() {
                "control" => "Ctrl".to_string(),
                "alt" => "Alt".to_string(),
                "shift" => "Shift".to_string(),
                "meta" => "Super".to_string(),
                key if key.starts_with("numpad") => {
                    format!("NumPad{}", reference_capitalize(&key[6..]))
                }
                key if key.starts_with("digit") => key[5..].to_string(),
                key if key.starts_with("key") => key[3..].to_uppercase(),
                other => reference_capitalize(other),
            }
        })
        .collect::<Vec<_>>()
        .join("+")
}

#[test]
fn test_normalize_modifiers_and_keys() {
    assert_eq!(normalize_hotkey_string("control+shift+KeyA"), "Ctrl+Shift+A");
    assert_eq!(normalize_hotkey_string("alt+meta+F5"), "Alt+Super+F5");
    assert_eq!(normalize_hotkey_string("control+Digit7"), "Ctrl+7");
    assert_eq!(normalize_hotkey_string("shift+numpad0"), "Shift+NumPad0");
    assert_eq!(normalize_hotkey_string("NumpadAdd"), "NumPadAdd");
    assert_eq!(normalize_hotkey_string("space"), "Space");
    assert_eq!(normalize_hotkey_string(" Control + ALT + keyq "), "Ctrl+Alt+Q");
    assert_eq!(normalize_hotkey_string("ArrowUp"), "Arrowup");
}

#[test]
fn test_normalize_edge_cases() {
    assert_eq!(normalize_hotkey_string(""), "");
    assert_eq!(normalize_hotkey_string("+"), "+");
    assert_eq!(normalize_hotkey_string("a++b"), "A++B");
    assert_eq!(normalize_hotkey_string("key"), "");
    assert_eq!(normalize_hotkey_string("digit"), "");
    assert_eq!(normalize_hotkey_string("numpad"), "NumPad");
    assert_eq!(normalize_hotkey_string("keyboard"), "BOARD");
    assert_eq!(normalize_hotkey_string("controls"), "Controls");
    assert_eq!(normalize_hotkey_string("ßeta"), "SSeta");
    assert_eq!(normalize_hotkey_string("keyß"), "SS");
}

#[test]
fn test_normalize_agrees_with_plain_string_handling() {
    let inputs = [
        "control+shift+KeyA", "Ctrl+A", "CONTROL+ALT+DELETE", "meta+digit0", "numpadenter",
        "  shift  +  tab ", "\tKeyZ\n", "+", "++", "a+", "+a", "x+y+z", "key+key", "Digit",
        "numpadé", "éclair", "ǆ", "ﬁ+ﬂ", "İ", "key\u{3000}a", "\u{a0}alt\u{2003}", "F12",
        "control+numpadsubtract", "Shift+keyä", "super", "shift+shift", "altgr", "metal",
        "digital", "digit5x", "Σίσυφος", "ΟΔΥΣΣΕΥΣ+key", "🎵", "key🎵", "a + b + c + d + e",
    ];
    for input in inputs {
        assert_eq!(normalize_hotkey_string(input), reference_normalize(input), "for {:?}", input);
    }
}

#[test]
fn test_normalize_key_of_one_part() {
    assert_eq!(normalize_key("  control "), "Ctrl");
    assert_eq!(normalize_key("KeyB"), "B");
    assert_eq!(normalize_key("Digit9"), "9");
    assert_eq!(normalize_key("numpaddecimal"), "NumPadDecimal");
    assert_eq!(normalize_key("escape"), "Escape");
    assert_eq!(normalize_key(""), "");
}

#[test]
fn test_capitalize_first() {
    for input in ["", "a", "abc", "Abc", "1a", "ß", "éa", "ǆx", "ﬁn", " x"] {
        assert_eq!(capitalize_first(input), reference_capitalize(input), "for {:?}", input);
    }
    assert_eq!(capitalize_first("hello"), "Hello");
    assert_eq!(capitalize_first("ß"), "SS");
}

#[test]
fn test_trim_agrees_with_std() {
    for input in [
        "", " ", "a", " a", "a ", "  a b  ", "\t\n x \r\n", "\u{a0}x\u{3000}", "\u{2003}", "x y",
        "\u{85}a\u{1680}", "\u{200b}a", "ä ",
    ] {
        assert_eq!(trim(input), input.trim(), "for {:?}", input);
    }
}

#[test]
fn test_contains_text_agrees_with_std() {
    let hays = ["", "a", "cable input", "CABLE Input (VB-Audio)", "xcablex", "cabl", "ääcableöö", "aaab"];
    let needles = ["", "a", "cable", "cable input", "ab", "aab", "b", "ö", "input)"];
    for hay in hays {
        for needle in needles {
            assert_eq!(contains_text(hay, needle), hay.contains(needle), "{:?} in {:?}", needle, hay);
        }
    }
}

#[test]
fn test_split_and_join() {
    for input in ["", "+", "a", "a+b", "+a", "a+", "a++b", "ctrl+shift+ä", "+++"] {
        let parts = split_at_plus(input);
        let expected: Vec<String> = input.split('+').map(str::to_string).collect();
        assert_eq!(parts, expected, "for {:?}", input);
        assert_eq!(join_with_plus(&parts), input);
    }
    assert_eq!(join_with_plus(&vec![]), "");
    assert_eq!(join_with_plus(&vec!["x".to_string()]), "x");
    assert_eq!(join_with_plus(&vec!["".to_string(), "".to_string()]), "+");
}
