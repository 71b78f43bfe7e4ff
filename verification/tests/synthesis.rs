use translation_bank::schema::{GoodsRecord, SourceTranslation, TextRecord};
use translation_bank::synthesis::{
    generate_action_buttons, generate_declaration, generate_event_text, generate_goods,
    generate_location, generate_menu, generate_module, generate_system, generate_text,
    generate_translation, Encoding,
};
use translation_bank::schema::Category;
use translation_bank::{registry, Bank};

fn record(id: u32, text: &str) -> TextRecord {
    TextRecord { id, text: text.to_string() }
}

fn goods(id: u32, name: &str, info: &str, description: &str) -> GoodsRecord {
    GoodsRecord {
        id,
        name: name.to_string(),
        info: info.to_string(),
        description: description.to_string(),
    }
}

fn empty() -> SourceTranslation {
    SourceTranslation {
        location: vec![],
        goods: vec![],
        menu: vec![],
        action_buttons: vec![],
        event_text: vec![],
        system: vec![],
    }
}

fn sample(tag: u32) -> SourceTranslation {
    SourceTranslation {
        location: vec![record(tag, "A"), record(2, "")],
        goods: vec![goods(7, "n", "i", "d")],
        menu: vec![],
        action_buttons: vec![record(3, "ok")],
        event_text: vec![],
        system: vec![record(4294967295, "\u{1F600}")],
    }
}

const EMPTY_LITERAL: &str = "Translation { location: Location { entries: &[] }, \
goods: Goods { entries: &[] }, menu: Menu { entries: &[] }, \
action_buttons: ActionButtons { entries: &[] }, event_text: EventText { entries: &[] }, \
system: System { entries: &[] } }";

#[test]
fn text_as_code_units_is_a_buffer_with_terminator() {
    assert_eq!(
        generate_text("A\"B\nC", Encoding::CodeUnits),
        "Utf16String { data: &[65, 34, 66, 10, 67, 0] }"
    );
    assert_eq!(generate_text("", Encoding::CodeUnits), "Utf16String { data: &[0] }");
    assert_eq!(
        generate_text("\u{1F600}\u{FFFF}", Encoding::CodeUnits),
        "Utf16String { data: &[55357, 56832, 65535, 0] }"
    );
}

#[test]
fn text_as_literal_is_escaped_between_quotes() {
    assert_eq!(generate_text("A\"B\nC", Encoding::Literal), "\"A\\\"B\\nC\"");
    assert_eq!(generate_text("", Encoding::Literal), "\"\"");
    assert_eq!(generate_text("\\", Encoding::Literal), "\"\\\\\"");
}

#[test]
fn category_literal_lists_its_records_in_order() {
    let records = vec![record(2, "b"), record(1, "a"), record(2, "")];
    assert_eq!(
        generate_location(&records, Encoding::CodeUnits),
        "Location { entries: &[LocationEntry { id: 2u32, text: Utf16String { data: &[98, 0] } }, \
LocationEntry { id: 1u32, text: Utf16String { data: &[97, 0] } }, \
LocationEntry { id: 2u32, text: Utf16String { data: &[0] } }] }"
    );
    assert_eq!(
        generate_location(&records, Encoding::Literal),
        "Location { entries: &[LocationEntry { id: 2u32, text: \"b\" }, \
LocationEntry { id: 1u32, text: \"a\" }, LocationEntry { id: 2u32, text: \"\" }] }"
    );
}

#[test]
fn each_category_is_written_under_its_own_names() {
    let records = vec![record(0, "x")];
    let body = " { id: 0u32, text: Utf16String { data: &[120, 0] } }] }";
    assert_eq!(
        generate_location(&records, Encoding::CodeUnits),
        format!("Location {{ entries: &[LocationEntry{}", body)
    );
    assert_eq!(
        generate_menu(&records, Encoding::CodeUnits),
        format!("Menu {{ entries: &[MenuEntry{}", body)
    );
    assert_eq!(
        generate_action_buttons(&records, Encoding::CodeUnits),
        format!("ActionButtons {{ entries: &[ActionButtonsEntry{}", body)
    );
    assert_eq!(
        generate_event_text(&records, Encoding::CodeUnits),
        format!("EventText {{ entries: &[EventTextEntry{}", body)
    );
    assert_eq!(
        generate_system(&records, Encoding::CodeUnits),
        format!("System {{ entries: &[SystemEntry{}", body)
    );
    assert_eq!(Category::Goods.table_name(), "Goods");
    assert_eq!(Category::Goods.entry_name(), "GoodsEntry");
    assert_eq!(Category::ActionButtons.table_name(), "ActionButtons");
    assert_eq!(Category::ActionButtons.entry_name(), "ActionButtonsEntry");
}

#[test]
fn empty_category_has_an_empty_list() {
    assert_eq!(generate_menu(&vec![], Encoding::CodeUnits), "Menu { entries: &[] }");
    assert_eq!(generate_goods(&vec![], Encoding::Literal), "Goods { entries: &[] }");
}

#[test]
fn goods_literal_holds_three_texts() {
    let records = vec![goods(10, "N", "", "D\"")];
    assert_eq!(
        generate_goods(&records, Encoding::CodeUnits),
        "Goods { entries: &[GoodsEntry { id: 10u32, name: Utf16String { data: &[78, 0] }, \
info: Utf16String { data: &[0] }, description: Utf16String { data: &[68, 34, 0] } }] }"
    );
    assert_eq!(
        generate_goods(&records, Encoding::Literal),
        "Goods { entries: &[GoodsEntry { id: 10u32, name: \"N\", info: \"\", \
description: \"D\\\"\" }] }"
    );
    let two = vec![goods(1, "a", "b", "c"), goods(0, "d", "e", "f")];
    assert_eq!(
        generate_goods(&two, Encoding::Literal),
        "Goods { entries: &[GoodsEntry { id: 1u32, name: \"a\", info: \"b\", description: \"c\" }, \
GoodsEntry { id: 0u32, name: \"d\", info: \"e\", description: \"f\" }] }"
    );
}

#[test]
fn identifiers_are_written_in_decimal() {
    for id in [0u32, 9, 10, 99, 100, 1000000, 4294967295] {
        assert_eq!(
            generate_menu(&vec![record(id, "")], Encoding::Literal),
            format!("Menu {{ entries: &[MenuEntry {{ id: {}u32, text: \"\" }}] }}", id)
        );
    }
}

#[test]
fn translation_literal_holds_six_categories_in_order() {
    assert_eq!(generate_translation(&empty(), Encoding::CodeUnits), EMPTY_LITERAL);
    assert_eq!(generate_translation(&empty(), Encoding::Literal), EMPTY_LITERAL);
    assert_eq!(
        generate_translation(&sample(1), Encoding::Literal),
        "Translation { location: Location { entries: &[LocationEntry { id: 1u32, text: \"A\" }, \
LocationEntry { id: 2u32, text: \"\" }] }, \
goods: Goods { entries: &[GoodsEntry { id: 7u32, name: \"n\", info: \"i\", description: \"d\" }] }, \
menu: Menu { entries: &[] }, \
action_buttons: ActionButtons { entries: &[ActionButtonsEntry { id: 3u32, text: \"ok\" }] }, \
event_text: EventText { entries: &[] }, \
system: System { entries: &[SystemEntry { id: 4294967295u32, text: \"\u{1F600}\" }] } }"
    );
}

#[test]
fn declaration_binds_the_name_of_the_language() {
    assert_eq!(
        generate_declaration(Bank::SpanishEu, &empty(), Encoding::CodeUnits),
        format!("pub static SPANISH_EU: Translation = {};\n", EMPTY_LITERAL)
    );
}

#[test]
fn module_declares_the_languages_in_registry_order() {
    let sources: Vec<SourceTranslation> = (0..14).map(sample).collect();
    let module = generate_module(&sources, Encoding::CodeUnits).unwrap();
    let mut expected = String::from("use crate::translation::*;\n");
    for (place, bank) in registry().into_iter().enumerate() {
        expected.push_str(&generate_declaration(bank, &sources[place], Encoding::CodeUnits));
    }
    assert_eq!(module, expected);
    let names: Vec<&str> = module
        .lines()
        .skip(1)
        .map(|line| line.strip_prefix("pub static ").unwrap().split(':').next().unwrap())
        .collect();
    assert_eq!(
        names,
        vec![
            "ENGLISH",
            "BRAZILIAN_PORTUGUESE",
            "CHINESE_SIMPLIFIED",
            "CHINESE_TRADITIONAL",
            "FRENCH",
            "GERMAN",
            "ITALIAN",
            "JAPANESE",
            "KOREAN",
            "POLISH",
            "RUSSIAN",
            "SPANISH_EU",
            "SPANISH_LATIN",
            "THAI",
        ]
    );
    assert!(module.contains("pub static GERMAN: Translation = Translation { location: Location { entries: &[LocationEntry { id: 5u32,"));
}

#[test]
fn module_needs_exactly_fourteen_sources() {
    for count in [0u32, 1, 13, 15] {
        let sources: Vec<SourceTranslation> = (0..count).map(sample).collect();
        assert_eq!(generate_module(&sources, Encoding::CodeUnits), None);
    }
}

#[test]
fn synthesis_twice_gives_the_same_bytes() {
    let first: Vec<SourceTranslation> = (0..14).map(sample).collect();
    let second: Vec<SourceTranslation> = (0..14).map(sample).collect();
    for encoding in [Encoding::CodeUnits, Encoding::Literal] {
        let a = generate_module(&first, encoding).unwrap();
        let b = generate_module(&second, encoding).unwrap();
        let c = generate_module(&first, encoding).unwrap();
        assert_eq!(a.as_bytes(), b.as_bytes());
        assert_eq!(a.as_bytes(), c.as_bytes());
    }
}
