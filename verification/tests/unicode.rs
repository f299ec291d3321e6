use nfc_string::Nfc;

fn nfc_caseless(input: &str, expected: &str) {
    assert_eq!(Nfc::caseless(input).as_str(), expected);
}

fn nfc_eq(left: &str, right: &str) {
    assert_eq!(Nfc::from_str(left), Nfc::from_str(right));
}

fn nfc(input: &str, expected: &str) {
    assert_eq!(Nfc::from_str(input).as_str(), expected);
}

fn nfc_add(left: &str, right: &str, expected: &str) {
    assert_eq!((Nfc::from_str(left) + right).as_str(), expected);
}

#[test]
fn caseless() {
    nfc_caseless("Test Case", "test case");
    nfc_caseless("Teſt Caſe", "test case");
    nfc_caseless("spiﬃest", "spiffiest");
    nfc_caseless("straße", "strasse");
}

#[test]
fn examples_of_canonical_equivalence() {
    nfc_eq("\u{00C7}", "\u{0043}\u{0327}");
    nfc_eq("\u{0071}\u{0307}\u{0323}", "\u{0071}\u{0323}\u{0307}");
    nfc_eq("\u{AC00}", "\u{1100}\u{1161}");
    nfc_eq("\u{03A9}", "\u{2126}");
}

#[test]
fn singletons() {
    nfc("\u{212B}", "\u{00C5}");
    nfc("\u{2126}", "\u{03A9}");
}

#[test]
fn canonical_composites() {
    nfc("\u{00C5}", "\u{00C5}");
    nfc("\u{00F4}", "\u{00F4}");
}

#[test]
fn multiple_combining_marks() {
    nfc("\u{1E69}", "\u{1E69}");
    nfc("\u{1E0B}\u{0323}", "\u{1E0D}\u{0307}");
    nfc("\u{0071}\u{0307}\u{0323}", "\u{0071}\u{0323}\u{0307}");
}

#[test]
fn string_concatenation() {
    nfc_add("\u{0061}", "\u{0302}", "\u{00E2}");
    nfc_add("\u{1100}", "\u{1161}\u{11A8}", "\u{AC01}");
}

#[test]
fn basic_examples() {
    nfc("\u{1E0A}", "\u{1E0A}");
    nfc("\u{0044}\u{0307}", "\u{1E0A}");
    nfc("\u{1E0C}\u{0307}", "\u{1E0C}\u{0307}");
    nfc("\u{1E0A}\u{0323}", "\u{1E0C}\u{0307}");
    nfc("\u{0044}\u{0307}\u{0323}", "\u{1E0C}\u{0307}");
    nfc(
        "\u{0044}\u{0307}\u{031B}\u{0323}",
        "\u{1E0C}\u{031B}\u{0307}",
    );
    nfc("\u{1E16}", "\u{1E16}");
    nfc("\u{0112}\u{0301}", "\u{1E16}");
    nfc("\u{00C8}\u{0304}", "\u{00C8}\u{0304}");
    nfc("\u{212B}", "\u{00C5}");
    nfc("\u{00C5}", "\u{00C5}");
}

#[test]
fn nfc_applied_to_compatibility_equivalent_string() {
    nfc("Äffin", "Äffin");
    nfc("Ä\u{FB03}n", "Ä\u{FB03}n");
    nfc("Henry IV", "Henry IV");
    nfc("Henry \u{2163}", "Henry \u{2163}");
    nfc("\u{30AC}", "\u{30AC}");
    nfc("\u{30AB}\u{3099}", "\u{30AC}");
    nfc("\u{FF76}\u{FF9E}", "\u{FF76}\u{FF9E}");
    nfc("\u{30AB}\u{FF9E}", "\u{30AB}\u{FF9E}");
    nfc("\u{FF76}\u{3099}", "\u{FF76}\u{3099}");
    nfc("\u{CE8C}", "\u{CE8C}");
}
