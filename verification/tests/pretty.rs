use translation_bank::pretty::{
    flat_rendering, pretty_parse, strip_wrapper, synthesize, wrap_in_function, INDENT,
};
use translation_bank::schema::{load_translation, GoodsRecord, SourceTranslation, TextRecord};
use translation_bank::synthesis::{
    generate_goods, generate_location, generate_module, generate_text, generate_translation,
    Encoding,
};
use translation_bank::registry;

fn record(id: u32, text: &str) -> TextRecord {
    TextRecord { id, text: text.to_string() }
}

fn sample(tag: u32) -> SourceTranslation {
    SourceTranslation {
        location: vec![record(tag, "A")],
        goods: vec![],
        menu: vec![],
        action_buttons: vec![],
        event_text: vec![],
        system: vec![],
    }
}

fn formatted_declaration(name: &str, tag: u32) -> String {
    format!(
        "pub static {}: Translation = Translation {{
    location: Location {{
        entries: &[
            LocationEntry {{
                id: {}u32,
                text: Utf16String {{ data: &[65, 0] }},
            }},
        ],
    }},
    goods: Goods {{ entries: &[] }},
    menu: Menu {{ entries: &[] }},
    action_buttons: ActionButtons {{ entries: &[] }},
    event_text: EventText {{ entries: &[] }},
    system: System {{ entries: &[] }},
}};
",
        name, tag
    )
}

#[test]
fn module_is_formatted_as_a_file() {
    let sources: Vec<SourceTranslation> = (0..14).map(sample).collect();
    let mut expected = String::from("use crate::translation::*;\n");
    for (place, bank) in registry().into_iter().enumerate() {
        expected.push_str(&formatted_declaration(bank.name(), place as u32));
    }
    assert_eq!(synthesize(&sources, Encoding::CodeUnits), Some(expected.clone()));
    let module = generate_module(&sources, Encoding::CodeUnits).unwrap();
    assert_ne!(module, expected);
    assert_eq!(pretty_parse(&module), expected);
}

#[test]
fn there_is_no_module_without_fourteen_sources() {
    let sources: Vec<SourceTranslation> = (0..13).map(sample).collect();
    assert_eq!(synthesize(&sources, Encoding::CodeUnits), None);
    assert_eq!(synthesize(&Vec::new(), Encoding::Literal), None);
}

#[test]
fn fragment_is_formatted_inside_the_synthetic_function() {
    let location = generate_location(&vec![record(1, "hi")], Encoding::CodeUnits);
    assert_eq!(
        pretty_parse(&location),
        "Location {
    entries: &[
        LocationEntry {
            id: 1u32,
            text: Utf16String {
                data: &[104, 105, 0],
            },
        },
    ],
}"
    );
    let goods = generate_goods(
        &vec![GoodsRecord {
            id: 7,
            name: "A\"B\nC".to_string(),
            info: String::new(),
            description: "\\".to_string(),
        }],
        Encoding::Literal,
    );
    assert_eq!(
        pretty_parse(&goods),
        "Goods {
    entries: &[
        GoodsEntry {
            id: 7u32,
            name: \"A\\\"B\\nC\",
            info: \"\",
            description: \"\\\\\",
        },
    ],
}"
    );
    assert_eq!(pretty_parse(&generate_text("x", Encoding::Literal)), "\"x\"");
}

#[test]
fn formatting_twice_gives_the_same_bytes() {
    let sources: Vec<SourceTranslation> = (0..14).map(sample).collect();
    for encoding in [Encoding::CodeUnits, Encoding::Literal] {
        let first = synthesize(&sources, encoding).unwrap();
        let second = synthesize(&sources, encoding).unwrap();
        assert_eq!(first.as_bytes(), second.as_bytes());
        let literal = generate_translation(&sources[3], encoding);
        assert_eq!(pretty_parse(&literal).as_bytes(), pretty_parse(&literal).as_bytes());
    }
}

#[test]
fn source_text_runs_through_to_the_formatted_module() {
    let text = "[[location.entries]]\nid = 1\ntext = \"A\"\n[goods]\nentries = []\n[menu]\nentries = []\n\
[action_buttons]\nentries = []\n[event_text]\nentries = []\n[system]\nentries = []\n";
    let sources: Vec<SourceTranslation> =
        (0..14).map(|_| load_translation(text).unwrap()).collect();
    let module = synthesize(&sources, Encoding::CodeUnits).unwrap();
    assert!(module.starts_with("use crate::translation::*;\npub static ENGLISH: Translation = Translation {\n"));
    assert_eq!(module.matches("text: Utf16String { data: &[65, 0] },").count(), 14);
    assert!(module.ends_with("    system: System { entries: &[] },\n};\n"));
}

#[test]
fn wrapper_puts_the_source_on_lines_of_its_own() {
    assert_eq!(wrap_in_function("x"), "fn deleteme() {\nx\n}\n");
    assert_eq!(wrap_in_function(""), "fn deleteme() {\n\n}\n");
}

#[test]
fn stripping_removes_the_wrapper_and_one_indent() {
    assert_eq!(INDENT, 4);
    assert_eq!(strip_wrapper("fn deleteme() {\n    a;\n    b;\n}\n"), "a;\nb;");
    assert_eq!(
        strip_wrapper("fn deleteme() {\n    a {\n        b\n    }\n}\n"),
        "a {\n    b\n}"
    );
}

#[test]
fn stripping_leaves_short_lines_as_they_are() {
    assert_eq!(strip_wrapper("fn deleteme() {\n    a;\n\n    b;\n}\n"), "a;\n\nb;");
    assert_eq!(strip_wrapper("fn deleteme() {\nab\n   \n    \n     c\n}\n"), "ab\n   \n\n c");
    assert_eq!(strip_wrapper("abc\n"), "abc");
    assert_eq!(strip_wrapper("abcd\n"), "");
    assert_eq!(strip_wrapper(""), "");
    assert_eq!(strip_wrapper("\n"), "");
    assert_eq!(strip_wrapper("\n\n"), "\n");
    assert_eq!(strip_wrapper("\u{e9}\u{e9}"), "\u{e9}\u{e9}");
    assert_eq!(strip_wrapper("\u{e9}\u{e9}\u{e9}\u{e9}x"), "x");
}

#[test]
fn stripping_removes_only_the_last_closing_line() {
    assert_eq!(
        strip_wrapper("fn deleteme() {\n    x {\n}\n    y\n}\n"),
        "x {\n}\ny"
    );
    assert_eq!(strip_wrapper("    a\n}"), "a");
    assert_eq!(strip_wrapper("    a\n}x    b"), "a    b");
    assert_eq!(strip_wrapper("fn deleteme() {}\n"), "eleteme() {}");
    assert_eq!(strip_wrapper("x fn deleteme() {\n    y\n"), " deleteme() {\ny");
}

#[test]
fn stripping_takes_a_carriage_return_before_a_newline_as_line_ending() {
    assert_eq!(strip_wrapper("    a\r\n    b\r\n"), "a\nb");
    assert_eq!(strip_wrapper("    a\r"), "a\r");
    assert_eq!(strip_wrapper("abc\r\nd"), "abc\nd");
}

#[test]
fn flat_rendering_prints_the_tokens_one_after_another() {
    let location = generate_location(&vec![record(1, "hi")], Encoding::CodeUnits);
    assert_eq!(
        location,
        "Location { entries: &[LocationEntry { id: 1u32, text: Utf16String { data: &[104, 105, 0] } }] }"
    );
    assert_eq!(
        flat_rendering(&location),
        "Location { entries : & [LocationEntry { id : 1u32 , text : Utf16String { data : & [104 , 105 , 0] } }] }"
    );
    assert_eq!(flat_rendering(&generate_text("a b", Encoding::Literal)), "\"a b\"");
    assert_eq!(
        flat_rendering(&generate_text("", Encoding::CodeUnits)),
        "Utf16String { data : & [0] }"
    );
}

#[test]
fn stripping_recovers_an_indented_body() {
    let bodies = [
        "",
        "a",
        "a;\nb;",
        "a {\n    b\n}",
        "\n",
        "a\n",
        "\n\na\n\n",
        "x {\n}\ny {\n}",
        "   \n  \n \n",
        "fn deleteme() {\n}",
        "\u{e9}\n\u{1F600}",
    ];
    for body in bodies {
        let indented = format!("    {}", body.replace('\n', "\n    "));
        let formatted = format!("fn deleteme() {{\n{}\n}}\n", indented);
        assert_eq!(strip_wrapper(&formatted), body, "{:?}", body);
    }
}
