//! Synthesis: from the records of a language to the text of a literal that
//! builds its table, and from the fourteen languages to the text of the
//! module that declares their tables.

use vstd::prelude::*;
use crate::escape::{escaped, lemma_escape_round_trip, push_escaped, string_literal};
use crate::language::{Bank, BANK_COUNT};
use crate::schema::{
    goods_records_view, text_records_view, Category, GoodsRecord, GoodsRecordView,
    SourceTranslation, SourceView, TextRecord, TextRecordView,
};
use crate::text::{decimal, is_digit, lemma_decimal_digits, lemma_decimal_value, push_decimal};
use crate::utf16::{generate_utf16_data, lemma_code_units_round_trip, terminated_units};

verus! {

/// How a text is written into a literal. One encoding serves a whole module:
/// the two are never mixed.
#[derive(Clone, Copy, Debug, PartialEq, Eq, Structural)]
pub enum Encoding {
    /// As a string literal, escaped; for tables whose texts are native
    /// strings.
    Literal,
    /// As a buffer of UTF-16 code units that ends in a zero unit; for tables
    /// whose texts are handed to the engine as they stand.
    CodeUnits,
}

impl Category {
    /// The name of the type of the category.
    pub open spec fn spec_table_name(self) -> Seq<char> {
        match self {
            Category::Location => "Location"@,
            Category::Goods => "Goods"@,
            Category::Menu => "Menu"@,
            Category::ActionButtons => "ActionButtons"@,
            Category::EventText => "EventText"@,
            Category::System => "System"@,
        }
    }

    /// The name of the type of the entries of the category.
    pub open spec fn spec_entry_name(self) -> Seq<char> {
        match self {
            Category::Location => "LocationEntry"@,
            Category::Goods => "GoodsEntry"@,
            Category::Menu => "MenuEntry"@,
            Category::ActionButtons => "ActionButtonsEntry"@,
            Category::EventText => "EventTextEntry"@,
            Category::System => "SystemEntry"@,
        }
    }

    /// The name of the type of the category.
    pub fn table_name(&self) -> (name: &'static str)
        ensures
            name@ == self.spec_table_name(),
    {
        match self {
            Category::Location => "Location",
            Category::Goods => "Goods",
            Category::Menu => "Menu",
            Category::ActionButtons => "ActionButtons",
            Category::EventText => "EventText",
            Category::System => "System",
        }
    }

    /// The name of the type of the entries of the category.
    pub fn entry_name(&self) -> (name: &'static str)
        ensures
            name@ == self.spec_entry_name(),
    {
        match self {
            Category::Location => "LocationEntry",
            Category::Goods => "GoodsEntry",
            Category::Menu => "MenuEntry",
            Category::ActionButtons => "ActionButtonsEntry",
            Category::EventText => "EventTextEntry",
            Category::System => "SystemEntry",
        }
    }
}

/// Code units as a list of decimal numbers, separated by a comma and a space.
pub open spec fn units_list(units: Seq<u16>) -> Seq<char>
    decreases units.len(),
{
    if units.len() == 0 {
        Seq::empty()
    } else if units.len() == 1 {
        decimal(units[0] as nat)
    } else {
        units_list(units.drop_last()) + ", "@ + decimal(units.last() as nat)
    }
}

/// The literal of a text: a string literal, or a buffer of its code units
/// with the terminator.
pub open spec fn text_literal(text: Seq<char>, encoding: Encoding) -> Seq<char> {
    match encoding {
        Encoding::Literal => string_literal(text),
        Encoding::CodeUnits => "Utf16String { data: &["@ + units_list(terminated_units(text))
            + "] }"@,
    }
}

/// The literal of a record of the common shape.
pub open spec fn text_entry_literal(
    category: Category,
    record: TextRecordView,
    encoding: Encoding,
) -> Seq<char> {
    category.spec_entry_name() + " { id: "@ + decimal(record.id as nat) + "u32, text: "@
        + text_literal(record.text, encoding) + " }"@
}

/// The literal of a record of `Goods`.
pub open spec fn goods_entry_literal(record: GoodsRecordView, encoding: Encoding) -> Seq<char> {
    Category::Goods.spec_entry_name() + " { id: "@ + decimal(record.id as nat) + "u32, name: "@
        + text_literal(record.name, encoding) + ", info: "@ + text_literal(record.info, encoding)
        + ", description: "@ + text_literal(record.description, encoding) + " }"@
}

/// The literals of the records of a category, in their order, separated by a
/// comma and a space.
pub open spec fn text_entries_list(
    category: Category,
    records: Seq<TextRecordView>,
    encoding: Encoding,
) -> Seq<char>
    decreases records.len(),
{
    if records.len() == 0 {
        Seq::empty()
    } else if records.len() == 1 {
        text_entry_literal(category, records[0], encoding)
    } else {
        text_entries_list(category, records.drop_last(), encoding) + ", "@ + text_entry_literal(
            category,
            records.last(),
            encoding,
        )
    }
}

/// The literals of the records of `Goods`, in their order, separated by a
/// comma and a space.
pub open spec fn goods_entries_list(records: Seq<GoodsRecordView>, encoding: Encoding) -> Seq<
    char,
>
    decreases records.len(),
{
    if records.len() == 0 {
        Seq::empty()
    } else if records.len() == 1 {
        goods_entry_literal(records[0], encoding)
    } else {
        goods_entries_list(records.drop_last(), encoding) + ", "@ + goods_entry_literal(
            records.last(),
            encoding,
        )
    }
}

/// The literal of a category with records of the common shape.
pub open spec fn text_category_literal(
    category: Category,
    records: Seq<TextRecordView>,
    encoding: Encoding,
) -> Seq<char> {
    category.spec_table_name() + " { entries: &["@ + text_entries_list(category, records, encoding)
        + "] }"@
}

/// The literal of the category `Goods`.
pub open spec fn goods_category_literal(records: Seq<GoodsRecordView>, encoding: Encoding) -> Seq<
    char,
> {
    Category::Goods.spec_table_name() + " { entries: &["@ + goods_entries_list(records, encoding)
        + "] }"@
}

/// The literal of the table of one language: its six categories, each under
/// the name of its field.
pub open spec fn translation_literal(source: SourceView, encoding: Encoding) -> Seq<char> {
    "Translation { location: "@ + text_category_literal(
        Category::Location,
        source.location,
        encoding,
    ) + ", goods: "@ + goods_category_literal(source.goods, encoding) + ", menu: "@
        + text_category_literal(Category::Menu, source.menu, encoding) + ", action_buttons: "@
        + text_category_literal(Category::ActionButtons, source.action_buttons, encoding)
        + ", event_text: "@ + text_category_literal(
        Category::EventText,
        source.event_text,
        encoding,
    ) + ", system: "@ + text_category_literal(Category::System, source.system, encoding) + " }"@
}

/// The declaration of the table of one language: a public static of the
/// language's name, bound to the literal of its table, on a line of its own.
pub open spec fn declaration(bank: Bank, source: SourceView, encoding: Encoding) -> Seq<char> {
    "pub static "@ + bank.spec_name() + ": Translation = "@ + translation_literal(
        source,
        encoding,
    ) + ";\n"@
}

/// The line that opens the module: the import of the table types.
pub open spec fn module_header() -> Seq<char> {
    "use crate::translation::*;\n"@
}

/// The declarations of the leading `count` languages of the registry, in
/// registry order.
pub open spec fn declarations(sources: Seq<SourceView>, count: int, encoding: Encoding) -> Seq<
    char,
>
    decreases count,
{
    if count <= 0 {
        Seq::empty()
    } else {
        declarations(sources, count - 1, encoding) + declaration(
            Bank::at(count - 1),
            sources[count - 1],
            encoding,
        )
    }
}

/// The text of the module: the header, then one declaration for each of the
/// fourteen languages, in registry order.
pub open spec fn module_text(sources: Seq<SourceView>, encoding: Encoding) -> Seq<char> {
    module_header() + declarations(sources, BANK_COUNT as int, encoding)
}

/// The records of several languages as mathematical values, in order.
pub open spec fn sources_view(sources: Seq<SourceTranslation>) -> Seq<SourceView> {
    Seq::new(sources.len(), |i: int| sources[i]@)
}

/// Whether a text is one that this module synthesizes: the literal of a text,
/// of a category or of a table, a declaration, or a module.
pub open spec fn is_synthesized(text: Seq<char>) -> bool {
    ||| exists|content: Seq<char>, encoding: Encoding|
        text == #[trigger] text_literal(content, encoding)
    ||| exists|category: Category, records: Seq<TextRecordView>, encoding: Encoding|
        text == #[trigger] text_category_literal(category, records, encoding)
    ||| exists|records: Seq<GoodsRecordView>, encoding: Encoding|
        text == #[trigger] goods_category_literal(records, encoding)
    ||| exists|source: SourceView, encoding: Encoding|
        text == #[trigger] translation_literal(source, encoding)
    ||| exists|bank: Bank, source: SourceView, encoding: Encoding|
        text == #[trigger] declaration(bank, source, encoding)
    ||| exists|sources: Seq<SourceView>, encoding: Encoding|
        text == #[trigger] module_text(sources, encoding)
}

/// Appends a list of code units.
fn push_units(out: &mut String, units: &Vec<u16>)
    ensures
        final(out)@ == old(out)@ + units_list(units@),
{
    let mut i: usize = 0;
    assert(units@.take(0) =~= Seq::<u16>::empty());
    assert(out@ =~= old(out)@ + units_list(units@.take(0)));
    while i < units.len()
        invariant
            i <= units@.len(),
            out@ == old(out)@ + units_list(units@.take(i as int)),
        decreases units@.len() - i,
    {
        let ghost before = units@.take(i as int);
        let ghost after = units@.take(i as int + 1);
        let ghost start = out@;
        proof {
            assert(after.drop_last() =~= before);
            assert(after.last() == units@[i as int]);
            assert(after[0] == units@[0]);
        }
        if i > 0 {
            out.append(", ");
        }
        push_decimal(out, units[i] as u32);
        assert(out@ =~= old(out)@ + units_list(after));
        i += 1;
    }
    assert(units@.take(i as int) =~= units@);
}

/// Appends the literal of a text.
fn push_text(out: &mut String, text: &str, encoding: Encoding)
    ensures
        final(out)@ == old(out)@ + text_literal(text@, encoding),
{
    match encoding {
        Encoding::Literal => {
            out.push('"');
            push_escaped(out, text);
            out.push('"');
            assert(out@ =~= old(out)@ + (seq!['"'] + escaped(text@) + seq!['"']));
        },
        Encoding::CodeUnits => {
            out.append("Utf16String { data: &[");
            let data = generate_utf16_data(text);
            push_units(out, &data);
            out.append("] }");
            assert(out@ =~= old(out)@ + ("Utf16String { data: &["@ + units_list(
                terminated_units(text@),
            ) + "] }"@));
        },
    }
}

/// Appends the literal of a record of the common shape.
fn push_text_entry(out: &mut String, category: Category, record: &TextRecord, encoding: Encoding)
    ensures
        final(out)@ == old(out)@ + text_entry_literal(category, record@, encoding),
{
    out.append(category.entry_name());
    out.append(" { id: ");
    push_decimal(out, record.id);
    out.append("u32, text: ");
    push_text(out, record.text.as_str(), encoding);
    out.append(" }");
    assert(out@ =~= old(out)@ + text_entry_literal(category, record@, encoding));
}

/// Appends the literal of a record of `Goods`.
fn push_goods_entry(out: &mut String, record: &GoodsRecord, encoding: Encoding)
    ensures
        final(out)@ == old(out)@ + goods_entry_literal(record@, encoding),
{
    out.append(Category::Goods.entry_name());
    out.append(" { id: ");
    push_decimal(out, record.id);
    out.append("u32, name: ");
    push_text(out, record.name.as_str(), encoding);
    out.append(", info: ");
    push_text(out, record.info.as_str(), encoding);
    out.append(", description: ");
    push_text(out, record.description.as_str(), encoding);
    out.append(" }");
    assert(out@ =~= old(out)@ + goods_entry_literal(record@, encoding));
}

/// Appends the literal of a category with records of the common shape.
fn push_text_category(
    out: &mut String,
    category: Category,
    records: &Vec<TextRecord>,
    encoding: Encoding,
)
    ensures
        final(out)@ == old(out)@ + text_category_literal(
            category,
            text_records_view(records@),
            encoding,
        ),
{
    let ghost views = text_records_view(records@);
    out.append(category.table_name());
    out.append(" { entries: &[");
    let ghost opened = out@;
    let mut i: usize = 0;
    assert(views.take(0) =~= Seq::<TextRecordView>::empty());
    assert(out@ =~= opened + text_entries_list(category, views.take(0), encoding));
    while i < records.len()
        invariant
            i <= records@.len(),
            views == text_records_view(records@),
            out@ == opened + text_entries_list(category, views.take(i as int), encoding),
        decreases records@.len() - i,
    {
        let ghost before = views.take(i as int);
        let ghost after = views.take(i as int + 1);
        proof {
            assert(after.drop_last() =~= before);
            assert(after.last() == records@[i as int]@);
            assert(after[0] == records@[0]@);
        }
        if i > 0 {
            out.append(", ");
        }
        push_text_entry(out, category, &records[i], encoding);
        assert(out@ =~= opened + text_entries_list(category, after, encoding));
        i += 1;
    }
    assert(views.take(i as int) =~= views);
    out.append("] }");
    assert(out@ =~= old(out)@ + text_category_literal(category, views, encoding));
}

/// Appends the literal of the category `Goods`.
fn push_goods_category(out: &mut String, records: &Vec<GoodsRecord>, encoding: Encoding)
    ensures
        final(out)@ == old(out)@ + goods_category_literal(goods_records_view(records@), encoding),
{
    let ghost views = goods_records_view(records@);
    out.append(Category::Goods.table_name());
    out.append(" { entries: &[");
    let ghost opened = out@;
    let mut i: usize = 0;
    assert(views.take(0) =~= Seq::<GoodsRecordView>::empty());
    assert(out@ =~= opened + goods_entries_list(views.take(0), encoding));
    while i < records.len()
        invariant
            i <= records@.len(),
            views == goods_records_view(records@),
            out@ == opened + goods_entries_list(views.take(i as int), encoding),
        decreases records@.len() - i,
    {
        let ghost before = views.take(i as int);
        let ghost after = views.take(i as int + 1);
        proof {
            assert(after.drop_last() =~= before);
            assert(after.last() == records@[i as int]@);
            assert(after[0] == records@[0]@);
        }
        if i > 0 {
            out.append(", ");
        }
        push_goods_entry(out, &records[i], encoding);
        assert(out@ =~= opened + goods_entries_list(after, encoding));
        i += 1;
    }
    assert(views.take(i as int) =~= views);
    out.append("] }");
    assert(out@ =~= old(out)@ + goods_category_literal(views, encoding));
}

/// Appends the literal of the table of one language.
fn push_translation(out: &mut String, source: &SourceTranslation, encoding: Encoding)
    ensures
        final(out)@ == old(out)@ + translation_literal(source@, encoding),
{
    out.append("Translation { location: ");
    push_text_category(out, Category::Location, &source.location, encoding);
    out.append(", goods: ");
    push_goods_category(out, &source.goods, encoding);
    out.append(", menu: ");
    push_text_category(out, Category::Menu, &source.menu, encoding);
    out.append(", action_buttons: ");
    push_text_category(out, Category::ActionButtons, &source.action_buttons, encoding);
    out.append(", event_text: ");
    push_text_category(out, Category::EventText, &source.event_text, encoding);
    out.append(", system: ");
    push_text_category(out, Category::System, &source.system, encoding);
    out.append(" }");
    assert(out@ =~= old(out)@ + translation_literal(source@, encoding));
}

/// Appends the declaration of the table of one language.
fn push_declaration(out: &mut String, bank: Bank, source: &SourceTranslation, encoding: Encoding)
    ensures
        final(out)@ == old(out)@ + declaration(bank, source@, encoding),
{
    out.append("pub static ");
    out.append(bank.name());
    out.append(": Translation = ");
    push_translation(out, source, encoding);
    out.append(";\n");
    assert(out@ =~= old(out)@ + declaration(bank, source@, encoding));
}

/// The literal of a text under the given encoding.
pub fn generate_text(text: &str, encoding: Encoding) -> (literal: String)
    ensures
        literal@ == text_literal(text@, encoding),
{
    let mut out = String::new();
    push_text(&mut out, text, encoding);
    assert(out@ =~= text_literal(text@, encoding));
    out
}

/// The literal of a category with records of the common shape.
fn generate_text_category(category: Category, records: &Vec<TextRecord>, encoding: Encoding) -> (
    literal: String
)
    ensures
        literal@ == text_category_literal(category, text_records_view(records@), encoding),
{
    let mut out = String::new();
    push_text_category(&mut out, category, records, encoding);
    assert(out@ =~= text_category_literal(category, text_records_view(records@), encoding));
    out
}

/// The literal of the category `Location`: its records in their order.
pub fn generate_location(records: &Vec<TextRecord>, encoding: Encoding) -> (literal: String)
    ensures
        literal@ == text_category_literal(
            Category::Location,
            text_records_view(records@),
            encoding,
        ),
{
    generate_text_category(Category::Location, records, encoding)
}

/// The literal of the category `Goods`: its records in their order.
pub fn generate_goods(records: &Vec<GoodsRecord>, encoding: Encoding) -> (literal: String)
    ensures
        literal@ == goods_category_literal(goods_records_view(records@), encoding),
{
    let mut out = String::new();
    push_goods_category(&mut out, records, encoding);
    assert(out@ =~= goods_category_literal(goods_records_view(records@), encoding));
    out
}

/// The literal of the category `Menu`: its records in their order.
pub fn generate_menu(records: &Vec<TextRecord>, encoding: Encoding) -> (literal: String)
    ensures
        literal@ == text_category_literal(Category::Menu, text_records_view(records@), encoding),
{
    generate_text_category(Category::Menu, records, encoding)
}

/// The literal of the category `ActionButtons`: its records in their order.
pub fn generate_action_buttons(records: &Vec<TextRecord>, encoding: Encoding) -> (literal: String)
    ensures
        literal@ == text_category_literal(
            Category::ActionButtons,
            text_records_view(records@),
            encoding,
        ),
{
    generate_text_category(Category::ActionButtons, records, encoding)
}

/// The literal of the category `EventText`: its records in their order.
pub fn generate_event_text(records: &Vec<TextRecord>, encoding: Encoding) -> (literal: String)
    ensures
        literal@ == text_category_literal(
            Category::EventText,
            text_records_view(records@),
            encoding,
        ),
{
    generate_text_category(Category::EventText, records, encoding)
}

/// The literal of the category `System`: its records in their order.
pub fn generate_system(records: &Vec<TextRecord>, encoding: Encoding) -> (literal: String)
    ensures
        literal@ == text_category_literal(Category::System, text_records_view(records@), encoding),
{
    generate_text_category(Category::System, records, encoding)
}

/// The literal of the table of one language.
pub fn generate_translation(source: &SourceTranslation, encoding: Encoding) -> (literal: String)
    ensures
        literal@ == translation_literal(source@, encoding),
{
    let mut out = String::new();
    push_translation(&mut out, source, encoding);
    assert(out@ =~= translation_literal(source@, encoding));
    out
}

/// The declaration of the table of one registry language.
pub fn generate_declaration(bank: Bank, source: &SourceTranslation, encoding: Encoding) -> (text:
    String)
    ensures
        text@ == declaration(bank, source@, encoding),
{
    let mut out = String::new();
    push_declaration(&mut out, bank, source, encoding);
    assert(out@ =~= declaration(bank, source@, encoding));
    out
}

/// The text of the module that declares the tables of the fourteen registry
/// languages. `sources` holds the records of the languages in registry order;
/// with any other number of them there is no module.
pub fn generate_module(sources: &Vec<SourceTranslation>, encoding: Encoding) -> (text: Option<
    String,
>)
    ensures
        sources@.len() == BANK_COUNT ==> (text matches Some(t) && t@ == module_text(
            sources_view(sources@),
            encoding,
        )),
        sources@.len() != BANK_COUNT ==> text is None,
{
    if sources.len() != BANK_COUNT {
        return None;
    }
    let ghost views = sources_view(sources@);
    let mut out = String::new();
    out.append("use crate::translation::*;\n");
    let mut i: usize = 0;
    assert(out@ =~= module_header() + declarations(views, 0, encoding));
    while i < BANK_COUNT
        invariant
            i <= BANK_COUNT,
            sources@.len() == BANK_COUNT,
            views == sources_view(sources@),
            out@ == module_header() + declarations(views, i as int, encoding),
        decreases BANK_COUNT - i,
    {
        let bank = match Bank::from_index(i) {
            Some(bank) => bank,
            None => { return None; },
        };
        push_declaration(&mut out, bank, &sources[i], encoding);
        assert(out@ =~= module_header() + declarations(views, i as int + 1, encoding));
        i += 1;
    }
    Some(out)
}

/// The number of decimal digits at the end of a text.
pub open spec fn digit_suffix_len(text: Seq<char>) -> nat
    decreases text.len(),
{
    if text.len() == 0 || !is_digit(text.last()) {
        0
    } else {
        1 + digit_suffix_len(text.drop_last())
    }
}

/// Behind a text that does not end in a digit, a run of digits is the whole
/// run of digits at the end.
proof fn lemma_digit_suffix(front: Seq<char>, digits: Seq<char>)
    requires
        front.len() == 0 || !is_digit(front.last()),
        forall|i: int| 0 <= i < digits.len() ==> is_digit(#[trigger] digits[i]),
    ensures
        digit_suffix_len(front + digits) == digits.len(),
    decreases digits.len(),
{
    if digits.len() == 0 {
        assert(front + digits =~= front);
    } else {
        lemma_digit_suffix(front, digits.drop_last());
        assert((front + digits).drop_last() =~= front + digits.drop_last());
        assert((front + digits).last() == digits.last());
    }
}

/// What stands before the last number of a list: nothing in a list of one
/// number, the list of the numbers before it and the separator otherwise.
pub open spec fn list_front(units: Seq<u16>) -> Seq<char> {
    if units.len() <= 1 {
        Seq::empty()
    } else {
        units_list(units.drop_last()) + ", "@
    }
}

/// A list of numbers is its front and the numeral of its last number, and
/// that numeral is the whole run of digits at its end.
proof fn lemma_list_shape(units: Seq<u16>)
    requires
        units.len() >= 1,
    ensures
        units_list(units) == list_front(units) + decimal(units.last() as nat),
        digit_suffix_len(units_list(units)) == decimal(units.last() as nat).len(),
        units_list(units).len() >= 1,
        units.len() >= 2 ==> list_front(units).len() >= 2,
{
    let numeral = decimal(units.last() as nat);
    lemma_decimal_digits(units.last() as nat);
    if units.len() == 1 {
        assert(units_list(units) =~= list_front(units) + numeral);
    } else {
        reveal_strlit(", ");
        let front = list_front(units);
        assert(front.last() == ' ');
        assert(units_list(units) =~= front + numeral);
    }
    lemma_digit_suffix(list_front(units), numeral);
}

/// No two sequences of code units share a list: the list determines every
/// unit.
pub proof fn lemma_units_list_injective(first: Seq<u16>, second: Seq<u16>)
    requires
        units_list(first) == units_list(second),
    ensures
        first == second,
    decreases first.len(),
{
    if first.len() == 0 {
        if second.len() > 0 {
            lemma_list_shape(second);
        }
        assert(first =~= second);
    } else {
        lemma_list_shape(first);
        if second.len() == 0 {
            assert(units_list(second).len() == 0);
        } else {
            lemma_list_shape(second);
            let list = units_list(first);
            let a = decimal(first.last() as nat);
            let b = decimal(second.last() as nat);
            assert(a.len() == b.len());
            assert(a =~= list.skip(list.len() - a.len()));
            assert(b =~= list.skip(list.len() - b.len()));
            lemma_decimal_value(first.last() as nat);
            lemma_decimal_value(second.last() as nat);
            assert(first.last() == second.last());
            let front_a = list_front(first);
            let front_b = list_front(second);
            assert(front_a =~= list.take(list.len() - a.len()));
            assert(front_b =~= list.take(list.len() - b.len()));
            if first.len() == 1 {
                assert(second.len() == 1);
                assert(first =~= second);
            } else {
                assert(second.len() >= 2);
                reveal_strlit(", ");
                let rest_a = units_list(first.drop_last());
                let rest_b = units_list(second.drop_last());
                assert(rest_a =~= front_a.take(front_a.len() - 2));
                assert(rest_b =~= front_b.take(front_b.len() - 2));
                lemma_units_list_injective(first.drop_last(), second.drop_last());
                assert(first =~= first.drop_last().push(first.last()));
                assert(second =~= second.drop_last().push(second.last()));
            }
        }
    }
}

/// Synthesis loses nothing of a text: under either encoding, no two texts
/// share a literal.
pub proof fn lemma_text_literal_injective(first: Seq<char>, second: Seq<char>, encoding: Encoding)
    requires
        text_literal(first, encoding) == text_literal(second, encoding),
    ensures
        first == second,
{
    match encoding {
        Encoding::Literal => {
            let a = escaped(first);
            let b = escaped(second);
            let literal = string_literal(first);
            assert(literal.len() == a.len() + 2);
            assert(string_literal(second).len() == b.len() + 2);
            assert(a =~= literal.subrange(1, 1 + a.len() as int));
            assert(b =~= string_literal(second).subrange(1, 1 + b.len() as int));
            lemma_escape_round_trip(first);
            lemma_escape_round_trip(second);
        },
        Encoding::CodeUnits => {
            let open = "Utf16String { data: &["@;
            let close = "] }"@;
            let a = units_list(terminated_units(first));
            let b = units_list(terminated_units(second));
            let literal = text_literal(first, encoding);
            assert(literal.len() == open.len() + a.len() + close.len());
            assert(text_literal(second, encoding).len() == open.len() + b.len() + close.len());
            assert(a =~= literal.subrange(open.len() as int, (open.len() + a.len()) as int));
            assert(b =~= text_literal(second, encoding).subrange(
                open.len() as int,
                (open.len() + b.len()) as int,
            ));
            lemma_units_list_injective(terminated_units(first), terminated_units(second));
            lemma_code_units_round_trip(first);
            lemma_code_units_round_trip(second);
        },
    }
}

/// Synthesis depends on the records alone: two collections of sources that
/// hold the same records give the same module text, character for character.
pub proof fn lemma_synthesis_deterministic(
    first: Seq<SourceTranslation>,
    second: Seq<SourceTranslation>,
    encoding: Encoding,
)
    requires
        sources_view(first) == sources_view(second),
    ensures
        module_text(sources_view(first), encoding) == module_text(sources_view(second), encoding),
{
}

} // verus!
