use translation_bank::document::{find, read_document, Member, Node};
use translation_bank::schema::{
    load_translation, Category, Field, GoodsRecord, LoadError, SchemaError, SourceTranslation,
    TextRecord,
};

const COMPLETE: &str = r#"
[[location.entries]]
id = 2
text = "Second comes first"

[[location.entries]]
id = 1
text = "A \"quoted\" name\nwith a second line"

[[location.entries]]
id = 2
text = "The same id again"

[[goods.entries]]
id = 4294967295
name = "Flask"
info = "Restores health"
description = "A flask of \\ gold"

[menu]
entries = []

[[action_buttons.entries]]
id = 0
text = ""

[event_text]
entries = [{ id = 7, text = "Seven" }, { text = "Order of fields is free", id = 8 }]

[[system.entries]]
id = 9
text = "\U0001F600"
"#;

fn record(id: u32, text: &str) -> TextRecord {
    TextRecord { id, text: text.to_string() }
}

fn text(value: &str) -> Node {
    Node::Text(value.to_string())
}

fn member(key: &str, value: Node) -> Member {
    Member { key: key.to_string(), value }
}

fn entry(id: i64, value: &str) -> Node {
    Node::Table(vec![member("id", Node::Integer(id)), member("text", text(value))])
}

fn category(items: Vec<Node>) -> Node {
    Node::Table(vec![member("entries", Node::Array(items))])
}

fn goods_entry(fields: &[&str]) -> Node {
    let mut members = vec![member("id", Node::Integer(5))];
    for field in fields {
        members.push(member(field, text(field)));
    }
    Node::Table(members)
}

fn document_without(missing: &str) -> Node {
    let mut members = Vec::new();
    for key in ["location", "goods", "menu", "action_buttons", "event_text", "system"] {
        if key != missing {
            members.push(member(key, category(vec![])));
        }
    }
    Node::Table(members)
}

fn document_with(key: &str, value: Node) -> Node {
    let mut members = Vec::new();
    for name in ["location", "goods", "menu", "action_buttons", "event_text", "system"] {
        if name != key {
            members.push(member(name, category(vec![])));
        }
    }
    members.push(member(key, value));
    Node::Table(members)
}

fn schema_error(text: &str) -> SchemaError {
    match load_translation(text) {
        Err(LoadError::Schema(error)) => error,
        other => panic!("no schema error: {:?}", other),
    }
}

#[test]
fn complete_document_gives_every_record_in_document_order() {
    let source = load_translation(COMPLETE).unwrap();
    assert_eq!(
        source,
        SourceTranslation {
            location: vec![
                record(2, "Second comes first"),
                record(1, "A \"quoted\" name\nwith a second line"),
                record(2, "The same id again"),
            ],
            goods: vec![GoodsRecord {
                id: 4294967295,
                name: "Flask".to_string(),
                info: "Restores health".to_string(),
                description: "A flask of \\ gold".to_string(),
            }],
            menu: vec![],
            action_buttons: vec![record(0, "")],
            event_text: vec![record(7, "Seven"), record(8, "Order of fields is free")],
            system: vec![record(9, "\u{1F600}")],
        }
    );
}

#[test]
fn document_without_a_category_is_refused() {
    let text = COMPLETE.replace("[menu]\nentries = []\n", "");
    assert_eq!(schema_error(&text), SchemaError::MissingCategory(Category::Menu));
    let categories = [
        ("location", Category::Location),
        ("goods", Category::Goods),
        ("menu", Category::Menu),
        ("action_buttons", Category::ActionButtons),
        ("event_text", Category::EventText),
        ("system", Category::System),
    ];
    for (key, category) in categories {
        assert_eq!(
            SourceTranslation::from_document(&document_without(key)),
            Err(SchemaError::MissingCategory(category))
        );
    }
}

#[test]
fn goods_entry_without_description_is_refused() {
    let text = COMPLETE.replace("description = \"A flask of \\\\ gold\"\n", "");
    assert_ne!(text, COMPLETE);
    assert_eq!(
        schema_error(&text),
        SchemaError::MissingField(Category::Goods, 0, Field::Description)
    );
}

#[test]
fn goods_entry_needs_each_of_its_fields() {
    let fields = [
        (vec!["info", "description"], Field::Name),
        (vec!["name", "description"], Field::Info),
        (vec!["name", "info"], Field::Description),
    ];
    for (present, missing) in fields {
        let document =
            document_with("goods", category(vec![goods_entry(&["name", "info", "description"]), goods_entry(&present)]));
        assert_eq!(
            SourceTranslation::from_document(&document),
            Err(SchemaError::MissingField(Category::Goods, 1, missing))
        );
    }
    let without_id = Node::Table(vec![
        member("name", text("n")),
        member("info", text("i")),
        member("description", text("d")),
    ]);
    assert_eq!(
        SourceTranslation::from_document(&document_with("goods", category(vec![without_id]))),
        Err(SchemaError::MissingField(Category::Goods, 0, Field::Id))
    );
}

#[test]
fn empty_document_lacks_its_first_category() {
    assert_eq!(schema_error(""), SchemaError::MissingCategory(Category::Location));
}

#[test]
fn text_that_is_no_document_is_a_syntax_error() {
    assert!(matches!(load_translation("location = "), Err(LoadError::Syntax(_))));
    assert!(matches!(load_translation("[menu]\n[menu]\n"), Err(LoadError::Syntax(_))));
    assert!(read_document("= 1").is_err());
    match load_translation("a = 1\na = 2\n") {
        Err(LoadError::Syntax(message)) => assert!(!message.is_empty()),
        other => panic!("no syntax error: {:?}", other),
    }
}

#[test]
fn parsed_document_is_plain_data() {
    let document = read_document("b = [1, \"x\", true, 1.5, 1979-05-27]\n[a]\nc = { d = -3 }\n").unwrap();
    assert_eq!(
        document,
        Node::Table(vec![
            member("a", Node::Table(vec![member("c", Node::Table(vec![member("d", Node::Integer(-3))]))])),
            member(
                "b",
                Node::Array(vec![
                    Node::Integer(1),
                    text("x"),
                    Node::Boolean(true),
                    Node::Float,
                    Node::Datetime,
                ])
            ),
        ])
    );
}

#[test]
fn lookup_finds_the_first_member_with_the_key() {
    let members =
        vec![member("a", Node::Integer(1)), member("b", Node::Integer(2)), member("a", Node::Integer(3))];
    assert_eq!(find(&members, "a"), Some(&Node::Integer(1)));
    assert_eq!(find(&members, "b"), Some(&Node::Integer(2)));
    assert_eq!(find(&members, "c"), None);
    assert_eq!(find(&members, ""), None);
    assert_eq!(find(&Vec::new(), "a"), None);
}

#[test]
fn document_that_is_no_table_is_refused() {
    assert_eq!(SourceTranslation::from_document(&Node::Integer(1)), Err(SchemaError::NotATable));
    assert_eq!(SourceTranslation::from_document(&Node::Array(vec![])), Err(SchemaError::NotATable));
    assert_eq!(SourceTranslation::from_document(&text("x")), Err(SchemaError::NotATable));
}

#[test]
fn category_of_the_wrong_shape_is_refused() {
    assert_eq!(
        SourceTranslation::from_document(&document_with("menu", Node::Array(vec![]))),
        Err(SchemaError::CategoryNotATable(Category::Menu))
    );
    assert_eq!(
        SourceTranslation::from_document(&document_with("menu", Node::Table(vec![]))),
        Err(SchemaError::MissingEntries(Category::Menu))
    );
    assert_eq!(
        SourceTranslation::from_document(&document_with(
            "system",
            Node::Table(vec![member("entries", Node::Table(vec![]))])
        )),
        Err(SchemaError::EntriesNotAnArray(Category::System))
    );
    let text = format!("menu = 3\n{}", COMPLETE.replace("[menu]\nentries = []\n", ""));
    assert_eq!(schema_error(&text), SchemaError::CategoryNotATable(Category::Menu));
}

#[test]
fn record_of_the_wrong_shape_is_refused() {
    let cases = [
        (Node::Integer(1), SchemaError::EntryNotATable(Category::EventText, 1)),
        (Node::Table(vec![member("text", text("t"))]), SchemaError::MissingField(Category::EventText, 1, Field::Id)),
        (Node::Table(vec![member("id", Node::Integer(1))]), SchemaError::MissingField(Category::EventText, 1, Field::Text)),
        (
            Node::Table(vec![member("id", text("1")), member("text", text("t"))]),
            SchemaError::WrongFieldType(Category::EventText, 1, Field::Id),
        ),
        (
            Node::Table(vec![member("id", Node::Float), member("text", text("t"))]),
            SchemaError::WrongFieldType(Category::EventText, 1, Field::Id),
        ),
        (
            Node::Table(vec![member("id", Node::Integer(1)), member("text", Node::Integer(2))]),
            SchemaError::WrongFieldType(Category::EventText, 1, Field::Text),
        ),
        (entry(-1, "t"), SchemaError::IdOutOfRange(Category::EventText, 1)),
        (entry(4294967296, "t"), SchemaError::IdOutOfRange(Category::EventText, 1)),
        (entry(i64::MIN, "t"), SchemaError::IdOutOfRange(Category::EventText, 1)),
    ];
    for (item, error) in cases {
        let document = document_with("event_text", category(vec![entry(0, "fine"), item, Node::Integer(0)]));
        assert_eq!(SourceTranslation::from_document(&document), Err(error));
    }
}

#[test]
fn identifier_takes_the_whole_unsigned_range() {
    let document = document_with("menu", category(vec![entry(0, "low"), entry(4294967295, "high")]));
    let source = SourceTranslation::from_document(&document).unwrap();
    assert_eq!(source.menu, vec![record(0, "low"), record(4294967295, "high")]);
}

#[test]
fn first_fault_in_category_order_decides() {
    let mut members = vec![
        member("system", Node::Integer(0)),
        member("goods", category(vec![Node::Integer(0)])),
        member("location", category(vec![])),
    ];
    assert_eq!(
        SourceTranslation::from_document(&Node::Table(members)),
        Err(SchemaError::EntryNotATable(Category::Goods, 0))
    );
    members = vec![member("unknown", Node::Integer(0)), member("location", category(vec![]))];
    assert_eq!(
        SourceTranslation::from_document(&Node::Table(members)),
        Err(SchemaError::MissingCategory(Category::Goods))
    );
}

#[test]
fn document_with_a_seventh_category_is_refused() {
    let text = format!("{}\n[extra]\nentries = []\n", COMPLETE);
    assert!(matches!(schema_error(&text), SchemaError::UnknownCategory(_)));
    let mut members = match document_without("") {
        Node::Table(members) => members,
        _ => unreachable!(),
    };
    assert!(SourceTranslation::from_document(&Node::Table(match document_without("") {
        Node::Table(members) => members,
        _ => unreachable!(),
    }))
    .is_ok());
    members.insert(2, member("Location", category(vec![])));
    members.push(member("other", Node::Integer(0)));
    assert_eq!(
        SourceTranslation::from_document(&Node::Table(members)),
        Err(SchemaError::UnknownCategory(2))
    );
}

#[test]
fn fields_beyond_the_shape_are_passed_over() {
    let item = Node::Table(vec![
        member("note", text("for translators")),
        member("id", Node::Integer(3)),
        member("text", text("kept")),
    ]);
    let document = document_with(
        "location",
        Node::Table(vec![member("comment", Node::Boolean(true)), member("entries", Node::Array(vec![item]))]),
    );
    let source = SourceTranslation::from_document(&document).unwrap();
    assert_eq!(source.location, vec![record(3, "kept")]);
}

#[test]
fn keys_of_categories_and_fields() {
    assert_eq!(Category::Location.key(), "location");
    assert_eq!(Category::Goods.key(), "goods");
    assert_eq!(Category::Menu.key(), "menu");
    assert_eq!(Category::ActionButtons.key(), "action_buttons");
    assert_eq!(Category::EventText.key(), "event_text");
    assert_eq!(Category::System.key(), "system");
    assert_eq!(Field::Id.key(), "id");
    assert_eq!(Field::Text.key(), "text");
    assert_eq!(Field::Name.key(), "name");
    assert_eq!(Field::Info.key(), "info");
    assert_eq!(Field::Description.key(), "description");
}
