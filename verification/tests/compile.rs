use translation_bank::compile::{compile, load_all, CompileError};
use translation_bank::pretty::synthesize;
use translation_bank::schema::{
    load_translation, Category, Field, LoadError, SchemaError, SourceTranslation,
};
use translation_bank::synthesis::Encoding;
use translation_bank::Bank;

fn source_text(tag: usize) -> String {
    format!(
        "[[location.entries]]\nid = {}\ntext = \"Place {}\"\n\
[[goods.entries]]\nid = 1\nname = \"n\"\ninfo = \"i\"\ndescription = \"d\"\n\
[menu]\nentries = []\n[action_buttons]\nentries = []\n[event_text]\nentries = []\n\
[system]\nentries = []\n",
        tag, tag
    )
}

fn texts() -> Vec<String> {
    (0..14).map(source_text).collect()
}

#[test]
fn fourteen_sources_compile_to_the_formatted_module() {
    let texts = texts();
    let sources: Vec<SourceTranslation> =
        texts.iter().map(|text| load_translation(text).unwrap()).collect();
    let module = compile(&texts, Encoding::CodeUnits).unwrap();
    assert_eq!(Some(module.clone()), synthesize(&sources, Encoding::CodeUnits));
    assert_eq!(load_all(&texts), Ok(sources));
    assert!(module.starts_with("use crate::translation::*;\npub static ENGLISH: Translation = Translation {\n"));
    let german = module.find("pub static GERMAN").unwrap();
    let italian = module.find("pub static ITALIAN").unwrap();
    assert!(module[german..italian].contains("id: 5u32,"));
    assert!(module[german..italian].contains("data: &[80, 108, 97, 99, 101, 32, 53, 0],"));
    let literal = compile(&texts, Encoding::Literal).unwrap();
    assert!(literal.contains("text: \"Place 13\","));
}

#[test]
fn compiling_twice_gives_the_same_bytes() {
    let first = compile(&texts(), Encoding::CodeUnits).unwrap();
    let second = compile(&texts(), Encoding::CodeUnits).unwrap();
    assert_eq!(first.as_bytes(), second.as_bytes());
}

#[test]
fn build_needs_a_text_for_every_language() {
    let mut few = texts();
    few.pop();
    assert_eq!(compile(&few, Encoding::CodeUnits), Err(CompileError::LanguageCount(13)));
    assert_eq!(load_all(&few), Err(CompileError::LanguageCount(13)));
    assert_eq!(compile(&Vec::new(), Encoding::CodeUnits), Err(CompileError::LanguageCount(0)));
    let mut many = texts();
    many.push(String::from("not even a document ="));
    assert_eq!(compile(&many, Encoding::CodeUnits), Err(CompileError::LanguageCount(15)));
}

#[test]
fn source_without_a_category_fails_the_build() {
    let mut texts = texts();
    texts[5] = texts[5].replace("[menu]\nentries = []\n", "");
    assert_eq!(
        compile(&texts, Encoding::CodeUnits),
        Err(CompileError::Source(
            Bank::German,
            LoadError::Schema(SchemaError::MissingCategory(Category::Menu))
        ))
    );
}

#[test]
fn goods_entry_without_description_fails_the_build() {
    let mut texts = texts();
    texts[13] = texts[13].replace("description = \"d\"\n", "");
    assert_eq!(
        compile(&texts, Encoding::Literal),
        Err(CompileError::Source(
            Bank::Thai,
            LoadError::Schema(SchemaError::MissingField(Category::Goods, 0, Field::Description))
        ))
    );
}

#[test]
fn first_bad_source_in_registry_order_decides() {
    let mut texts = texts();
    texts[7] = String::from("[location");
    texts[2] = String::new();
    assert_eq!(
        load_all(&texts),
        Err(CompileError::Source(
            Bank::ChineseSimplified,
            LoadError::Schema(SchemaError::MissingCategory(Category::Location))
        ))
    );
    texts[2] = source_text(2);
    match compile(&texts, Encoding::CodeUnits) {
        Err(CompileError::Source(Bank::Japanese, LoadError::Syntax(message))) => {
            assert!(!message.is_empty())
        }
        other => panic!("no syntax error: {:?}", other),
    }
}
