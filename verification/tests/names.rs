use pumpkins::name::{entry_kind, find_split_point, sidecar_name, EntryKind};
use pumpkins::text::{chars_of, fold_char, tail_eq_ignore_ascii_case};
use std::path::Path;

fn kind_by_std(name: &str) -> EntryKind {
    match Path::new(name).extension().and_then(|e| e.to_str()) {
        Some(ext) if ext.eq_ignore_ascii_case("png") => EntryKind::Image,
        Some(ext) if ext.eq_ignore_ascii_case("weight") => EntryKind::Sidecar,
        _ => EntryKind::Other,
    }
}

fn sidecar_by_std(image: &str) -> String {
    let stem = Path::new(image).file_stem().unwrap().to_str().unwrap();
    format!("{stem}.weight")
}

#[test]
fn png_is_an_image() {
    assert_eq!(entry_kind("a.png"), EntryKind::Image);
}

#[test]
fn weight_is_a_sidecar() {
    assert_eq!(entry_kind("a.weight"), EntryKind::Sidecar);
}

#[test]
fn extension_case_does_not_matter() {
    assert_eq!(entry_kind("c.PNG"), EntryKind::Image);
    assert_eq!(entry_kind("c.pNg"), EntryKind::Image);
    assert_eq!(entry_kind("c.WEIGHT"), EntryKind::Sidecar);
    assert_eq!(entry_kind("c.Weight"), EntryKind::Sidecar);
}

#[test]
fn entries_without_extension_are_passed_over() {
    assert_eq!(entry_kind("png"), EntryKind::Other);
    assert_eq!(entry_kind("weight"), EntryKind::Other);
    assert_eq!(entry_kind(""), EntryKind::Other);
    assert_eq!(entry_kind("README"), EntryKind::Other);
}

#[test]
fn a_leading_dot_opens_no_extension() {
    assert_eq!(entry_kind(".png"), EntryKind::Other);
    assert_eq!(entry_kind(".weight"), EntryKind::Other);
    assert_eq!(entry_kind(".hidden.png"), EntryKind::Image);
}

#[test]
fn other_extensions_are_passed_over() {
    assert_eq!(entry_kind("a.jpg"), EntryKind::Other);
    assert_eq!(entry_kind("a.png.bak"), EntryKind::Other);
    assert_eq!(entry_kind("a.pngx"), EntryKind::Other);
    assert_eq!(entry_kind("a.pn"), EntryKind::Other);
    assert_eq!(entry_kind("a."), EntryKind::Other);
    assert_eq!(entry_kind(".."), EntryKind::Other);
    assert_eq!(entry_kind("..."), EntryKind::Other);
}

#[test]
fn only_the_last_extension_counts() {
    assert_eq!(entry_kind("a.weight.png"), EntryKind::Image);
    assert_eq!(entry_kind("a.png.weight"), EntryKind::Sidecar);
}

#[test]
fn letters_outside_ascii_are_not_folded() {
    // U+212A, the Kelvin sign, is no ASCII letter.
    assert_eq!(entry_kind("a.p\u{212A}g"), EntryKind::Other);
    assert_eq!(entry_kind("\u{e9}t\u{e9}.PNG"), EntryKind::Image);
}

#[test]
fn split_point_is_the_last_dot() {
    assert_eq!(find_split_point(&chars_of("a.png")), Some(1));
    assert_eq!(find_split_point(&chars_of("a.b.png")), Some(3));
    assert_eq!(find_split_point(&chars_of("a.")), Some(1));
    assert_eq!(find_split_point(&chars_of("...")), Some(2));
    assert_eq!(find_split_point(&chars_of("\u{e9}t\u{e9}.png")), Some(3));
}

#[test]
fn split_point_is_missing_without_an_extension() {
    assert_eq!(find_split_point(&chars_of("")), None);
    assert_eq!(find_split_point(&chars_of("abc")), None);
    assert_eq!(find_split_point(&chars_of(".png")), None);
    assert_eq!(find_split_point(&chars_of(".")), None);
    assert_eq!(find_split_point(&chars_of("..")), None);
}

#[test]
fn sidecar_name_replaces_the_extension() {
    assert_eq!(sidecar_name("a.png"), "a.weight");
    assert_eq!(sidecar_name("c.PNG"), "c.weight");
    assert_eq!(sidecar_name("a.b.png"), "a.b.weight");
    assert_eq!(sidecar_name("\u{e9}t\u{e9}.png"), "\u{e9}t\u{e9}.weight");
}

#[test]
fn sidecar_name_keeps_the_case_of_the_stem() {
    assert_eq!(sidecar_name("D.png"), "D.weight");
    assert_ne!(sidecar_name("d.png"), "D.weight");
}

#[test]
fn sidecar_name_of_a_name_without_extension_appends() {
    assert_eq!(sidecar_name("abc"), "abc.weight");
    assert_eq!(sidecar_name(".png"), ".png.weight");
}

#[test]
fn kinds_agree_with_the_standard_path_rules() {
    let names = vec![
        "a.png", "a.PNG", "a.weight", "a.WeIgHt", "a", "", ".", "..", "...", ".png", "a.", "a..png",
        "a.b.c", "a.png.weight", "a.weight.png", "png", ".a.png", "a b.png", "a.png ", "a.p ng",
        "\u{e9}.png", "a.\u{e9}", "a.pn\u{47}",
    ];
    for name in names {
        assert_eq!(entry_kind(name), kind_by_std(name), "{name:?}");
    }
}

#[test]
fn sidecar_names_agree_with_the_standard_path_rules() {
    let images = vec!["a.png", "a.PNG", "a.b.png", ".a.png", "a..png", "a b.png", "\u{e9}.Png"];
    for image in images {
        assert_eq!(entry_kind(image), EntryKind::Image);
        assert_eq!(sidecar_name(image), sidecar_by_std(image), "{image:?}");
    }
}

#[test]
fn chars_of_gives_the_characters_in_order() {
    assert_eq!(chars_of(""), Vec::<char>::new());
    assert_eq!(chars_of("a.png"), vec!['a', '.', 'p', 'n', 'g']);
    assert_eq!(chars_of("\u{e9}\u{3000}z"), vec!['\u{e9}', '\u{3000}', 'z']);
}

#[test]
fn fold_char_lowers_ascii_capitals_only() {
    assert_eq!(fold_char('A'), 'a' as u32);
    assert_eq!(fold_char('Z'), 'z' as u32);
    assert_eq!(fold_char('a'), 'a' as u32);
    assert_eq!(fold_char('@'), '@' as u32);
    assert_eq!(fold_char('['), '[' as u32);
    assert_eq!(fold_char('0'), '0' as u32);
    assert_eq!(fold_char('\u{c9}'), 0xc9);
}

#[test]
fn tail_comparison_ignores_ascii_case() {
    let text = chars_of("x.PnG");
    assert!(tail_eq_ignore_ascii_case(&text, 2, &chars_of("png")));
    assert!(!tail_eq_ignore_ascii_case(&text, 1, &chars_of("png")));
    assert!(!tail_eq_ignore_ascii_case(&text, 2, &chars_of("pnh")));
    assert!(!tail_eq_ignore_ascii_case(&text, 2, &chars_of("pn")));
    assert!(tail_eq_ignore_ascii_case(&text, 5, &chars_of("")));
}

#[test]
fn sidecar_name_of_an_image_is_a_sidecar_candidate() {
    for image in ["a.png", "a.b.PNG", ".a.png", "a..png", "A.Png"] {
        assert_eq!(entry_kind(image), EntryKind::Image);
        assert_eq!(entry_kind(&sidecar_name(image)), EntryKind::Sidecar);
    }
}
