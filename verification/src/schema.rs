//! The schema of a source document: six categories of records, and the
//! reading of a document into them. A document that departs from the schema
//! is refused as a whole; no table is ever filled in part.

use vstd::prelude::*;
use crate::document::{find, lookup, read_document, toml_document, Member, Node};

verus! {

/// The six categories of a translation, in the order of their fields.
#[derive(Clone, Copy, Debug, PartialEq, Eq, Structural)]
pub enum Category {
    Location,
    Goods,
    Menu,
    ActionButtons,
    EventText,
    System,
}

/// The fields of a record.
#[derive(Clone, Copy, Debug, PartialEq, Eq, Structural)]
pub enum Field {
    Id,
    Text,
    Name,
    Info,
    Description,
}

impl Category {
    /// The key of the category in a document.
    pub open spec fn spec_key(self) -> Seq<char> {
        match self {
            Category::Location => "location"@,
            Category::Goods => "goods"@,
            Category::Menu => "menu"@,
            Category::ActionButtons => "action_buttons"@,
            Category::EventText => "event_text"@,
            Category::System => "system"@,
        }
    }

    /// The key of the category in a document, which is also the name of its
    /// field in a table.
    pub fn key(&self) -> (key: &'static str)
        ensures
            key@ == self.spec_key(),
    {
        match self {
            Category::Location => "location",
            Category::Goods => "goods",
            Category::Menu => "menu",
            Category::ActionButtons => "action_buttons",
            Category::EventText => "event_text",
            Category::System => "system",
        }
    }
}

impl Field {
    /// The key of the field in a record of a document.
    pub open spec fn spec_key(self) -> Seq<char> {
        match self {
            Field::Id => "id"@,
            Field::Text => "text"@,
            Field::Name => "name"@,
            Field::Info => "info"@,
            Field::Description => "description"@,
        }
    }

    /// The key of the field in a record of a document.
    pub fn key(&self) -> (key: &'static str)
        ensures
            key@ == self.spec_key(),
    {
        match self {
            Field::Id => "id",
            Field::Text => "text",
            Field::Name => "name",
            Field::Info => "info",
            Field::Description => "description",
        }
    }
}

/// The key under which a category holds its records.
pub open spec fn entries_key() -> Seq<char> {
    "entries"@
}

/// A record of every category but `Goods`.
#[derive(Debug, PartialEq, Eq)]
pub struct TextRecord {
    pub id: u32,
    pub text: String,
}

/// A record of the category `Goods`.
#[derive(Debug, PartialEq, Eq)]
pub struct GoodsRecord {
    pub id: u32,
    pub name: String,
    pub info: String,
    pub description: String,
}

/// The records of one language, as its source document gives them: every
/// category in the order of the document.
#[derive(Debug, PartialEq, Eq)]
pub struct SourceTranslation {
    pub location: Vec<TextRecord>,
    pub goods: Vec<GoodsRecord>,
    pub menu: Vec<TextRecord>,
    pub action_buttons: Vec<TextRecord>,
    pub event_text: Vec<TextRecord>,
    pub system: Vec<TextRecord>,
}

/// A record of the common shape as a mathematical value.
pub struct TextRecordView {
    pub id: u32,
    pub text: Seq<char>,
}

/// A record of `Goods` as a mathematical value.
pub struct GoodsRecordView {
    pub id: u32,
    pub name: Seq<char>,
    pub info: Seq<char>,
    pub description: Seq<char>,
}

/// The records of one language as a mathematical value.
pub struct SourceView {
    pub location: Seq<TextRecordView>,
    pub goods: Seq<GoodsRecordView>,
    pub menu: Seq<TextRecordView>,
    pub action_buttons: Seq<TextRecordView>,
    pub event_text: Seq<TextRecordView>,
    pub system: Seq<TextRecordView>,
}

impl View for TextRecord {
    type V = TextRecordView;

    open spec fn view(&self) -> TextRecordView {
        TextRecordView { id: self.id, text: self.text@ }
    }
}

impl View for GoodsRecord {
    type V = GoodsRecordView;

    open spec fn view(&self) -> GoodsRecordView {
        GoodsRecordView {
            id: self.id,
            name: self.name@,
            info: self.info@,
            description: self.description@,
        }
    }
}

/// The records of a category as mathematical values, in order.
pub open spec fn text_records_view(records: Seq<TextRecord>) -> Seq<TextRecordView> {
    Seq::new(records.len(), |i: int| records[i]@)
}

/// The records of `Goods` as mathematical values, in order.
pub open spec fn goods_records_view(records: Seq<GoodsRecord>) -> Seq<GoodsRecordView> {
    Seq::new(records.len(), |i: int| records[i]@)
}

impl View for SourceTranslation {
    type V = SourceView;

    open spec fn view(&self) -> SourceView {
        SourceView {
            location: text_records_view(self.location@),
            goods: goods_records_view(self.goods@),
            menu: text_records_view(self.menu@),
            action_buttons: text_records_view(self.action_buttons@),
            event_text: text_records_view(self.event_text@),
            system: text_records_view(self.system@),
        }
    }
}

/// Why a document is refused.
#[derive(Clone, Copy, Debug, PartialEq, Eq)]
pub enum SchemaError {
    /// The document is no table.
    NotATable,
    /// The document lacks a category.
    MissingCategory(Category),
    /// A category is no table.
    CategoryNotATable(Category),
    /// A category lacks its records.
    MissingEntries(Category),
    /// The records of a category are no array.
    EntriesNotAnArray(Category),
    /// The record at this place of a category is no table.
    EntryNotATable(Category, usize),
    /// The record at this place of a category lacks a field.
    MissingField(Category, usize, Field),
    /// A field of the record at this place holds a value of the wrong type.
    WrongFieldType(Category, usize, Field),
    /// The identifier of the record at this place is no unsigned 32-bit
    /// number.
    IdOutOfRange(Category, usize),
    /// The member at this place of the document names no category.
    UnknownCategory(usize),
}

/// The identifier of a record.
pub open spec fn id_of(members: Seq<Member>, category: Category, index: usize) -> Result<
    u32,
    SchemaError,
> {
    match lookup(members, Field::Id.spec_key()) {
        None => Err(SchemaError::MissingField(category, index, Field::Id)),
        Some(Node::Integer(n)) => if 0 <= n <= u32::MAX {
            Ok(n as u32)
        } else {
            Err(SchemaError::IdOutOfRange(category, index))
        },
        Some(_) => Err(SchemaError::WrongFieldType(category, index, Field::Id)),
    }
}

/// A text field of a record.
pub open spec fn text_of(
    members: Seq<Member>,
    category: Category,
    index: usize,
    field: Field,
) -> Result<Seq<char>, SchemaError> {
    match lookup(members, field.spec_key()) {
        None => Err(SchemaError::MissingField(category, index, field)),
        Some(Node::Text(s)) => Ok(s@),
        Some(_) => Err(SchemaError::WrongFieldType(category, index, field)),
    }
}

/// The record that one item of a category's array holds: a table with a
/// number `id` and a string `text`.
pub open spec fn text_record_of(item: Node, category: Category, index: usize) -> Result<
    TextRecordView,
    SchemaError,
> {
    match item {
        Node::Table(members) => match id_of(members@, category, index) {
            Err(e) => Err(e),
            Ok(id) => match text_of(members@, category, index, Field::Text) {
                Err(e) => Err(e),
                Ok(text) => Ok(TextRecordView { id, text }),
            },
        },
        _ => Err(SchemaError::EntryNotATable(category, index)),
    }
}

/// The record that one item of the array of `Goods` holds: a table with a
/// number `id` and the strings `name`, `info` and `description`.
pub open spec fn goods_record_of(item: Node, index: usize) -> Result<GoodsRecordView, SchemaError> {
    match item {
        Node::Table(members) => match id_of(members@, Category::Goods, index) {
            Err(e) => Err(e),
            Ok(id) => match text_of(members@, Category::Goods, index, Field::Name) {
                Err(e) => Err(e),
                Ok(name) => match text_of(members@, Category::Goods, index, Field::Info) {
                    Err(e) => Err(e),
                    Ok(info) => match text_of(
                        members@,
                        Category::Goods,
                        index,
                        Field::Description,
                    ) {
                        Err(e) => Err(e),
                        Ok(description) => Ok(GoodsRecordView { id, name, info, description }),
                    },
                },
            },
        },
        _ => Err(SchemaError::EntryNotATable(Category::Goods, index)),
    }
}

/// The records of a category's array, in its order; the fault of the first
/// item that holds none.
pub open spec fn text_records_of(items: Seq<Node>, category: Category) -> Result<
    Seq<TextRecordView>,
    SchemaError,
>
    decreases items.len(),
{
    if items.len() == 0 {
        Ok(Seq::empty())
    } else {
        match text_records_of(items.drop_last(), category) {
            Err(e) => Err(e),
            Ok(front) => match text_record_of(
                items.last(),
                category,
                (items.len() - 1) as usize,
            ) {
                Err(e) => Err(e),
                Ok(record) => Ok(front.push(record)),
            },
        }
    }
}

/// The records of the array of `Goods`, in its order; the fault of the first
/// item that holds none.
pub open spec fn goods_records_of(items: Seq<Node>) -> Result<Seq<GoodsRecordView>, SchemaError>
    decreases items.len(),
{
    if items.len() == 0 {
        Ok(Seq::empty())
    } else {
        match goods_records_of(items.drop_last()) {
            Err(e) => Err(e),
            Ok(front) => match goods_record_of(items.last(), (items.len() - 1) as usize) {
                Err(e) => Err(e),
                Ok(record) => Ok(front.push(record)),
            },
        }
    }
}

/// The array of a category: the document holds the category as a table, and
/// the table holds the array under `entries`.
pub open spec fn entries_of(document: Seq<Member>, category: Category) -> Result<
    Seq<Node>,
    SchemaError,
> {
    match lookup(document, category.spec_key()) {
        None => Err(SchemaError::MissingCategory(category)),
        Some(Node::Table(members)) => match lookup(members@, entries_key()) {
            None => Err(SchemaError::MissingEntries(category)),
            Some(Node::Array(items)) => Ok(items@),
            Some(_) => Err(SchemaError::EntriesNotAnArray(category)),
        },
        Some(_) => Err(SchemaError::CategoryNotATable(category)),
    }
}

/// The records of a category with records of the common shape.
pub open spec fn text_category_of(document: Seq<Member>, category: Category) -> Result<
    Seq<TextRecordView>,
    SchemaError,
> {
    match entries_of(document, category) {
        Err(e) => Err(e),
        Ok(items) => text_records_of(items, category),
    }
}

/// The records of `Goods`.
pub open spec fn goods_category_of(document: Seq<Member>) -> Result<
    Seq<GoodsRecordView>,
    SchemaError,
> {
    match entries_of(document, Category::Goods) {
        Err(e) => Err(e),
        Ok(items) => goods_records_of(items),
    }
}

/// Whether a key names one of the six categories.
pub open spec fn is_category_key(key: Seq<char>) -> bool {
    ||| key == Category::Location.spec_key()
    ||| key == Category::Goods.spec_key()
    ||| key == Category::Menu.spec_key()
    ||| key == Category::ActionButtons.spec_key()
    ||| key == Category::EventText.spec_key()
    ||| key == Category::System.spec_key()
}

/// The place of the first member from `from` on whose key names no category.
pub open spec fn first_unknown_from(document: Seq<Member>, from: int) -> Option<usize>
    decreases document.len() - from,
{
    if from < 0 || from >= document.len() {
        None
    } else if !is_category_key(document[from].key@) {
        Some(from as usize)
    } else {
        first_unknown_from(document, from + 1)
    }
}

/// The place of the first member whose key names no category.
pub open spec fn first_unknown(document: Seq<Member>) -> Option<usize> {
    first_unknown_from(document, 0)
}

/// The records that the members of a document hold. The categories are read
/// in their order, and the first fault decides; a document with all six is
/// still refused where it holds a seventh.
pub open spec fn source_of_members(document: Seq<Member>) -> Result<SourceView, SchemaError> {
    match text_category_of(document, Category::Location) {
        Err(e) => Err(e),
        Ok(location) => match goods_category_of(document) {
            Err(e) => Err(e),
            Ok(goods) => match text_category_of(document, Category::Menu) {
                Err(e) => Err(e),
                Ok(menu) => match text_category_of(document, Category::ActionButtons) {
                    Err(e) => Err(e),
                    Ok(action_buttons) => match text_category_of(document, Category::EventText) {
                        Err(e) => Err(e),
                        Ok(event_text) => match text_category_of(document, Category::System) {
                            Err(e) => Err(e),
                            Ok(system) => match first_unknown(document) {
                                Some(place) => Err(SchemaError::UnknownCategory(place)),
                                None => Ok(
                                    SourceView {
                                        location,
                                        goods,
                                        menu,
                                        action_buttons,
                                        event_text,
                                        system,
                                    },
                                ),
                            },
                        },
                    },
                },
            },
        },
    }
}

/// The records that a document holds, or why the document is refused.
pub open spec fn source_of(document: Node) -> Result<SourceView, SchemaError> {
    match document {
        Node::Table(members) => source_of_members(members@),
        _ => Err(SchemaError::NotATable),
    }
}

/// Whether a result is the expected one: the same error, or a value with the
/// expected view.
pub open spec fn agrees<T: View, E>(result: Result<T, E>, expected: Result<T::V, E>) -> bool {
    match expected {
        Ok(v) => result matches Ok(t) && t@ == v,
        Err(e) => result matches Err(x) && x == e,
    }
}

/// Reads the identifier of a record.
fn read_id(members: &Vec<Member>, category: Category, index: usize) -> (id: Result<
    u32,
    SchemaError,
>)
    ensures
        id == id_of(members@, category, index),
{
    match find(members, Field::Id.key()) {
        None => Err(SchemaError::MissingField(category, index, Field::Id)),
        Some(Node::Integer(n)) => {
            if 0 <= *n && *n <= 0xFFFF_FFFF {
                Ok(*n as u32)
            } else {
                Err(SchemaError::IdOutOfRange(category, index))
            }
        },
        Some(_) => Err(SchemaError::WrongFieldType(category, index, Field::Id)),
    }
}

/// Reads a text field of a record.
fn read_text(members: &Vec<Member>, category: Category, index: usize, field: Field) -> (text:
    Result<String, SchemaError>)
    ensures
        agrees(text, text_of(members@, category, index, field)),
{
    match find(members, field.key()) {
        None => Err(SchemaError::MissingField(category, index, field)),
        Some(Node::Text(s)) => Ok(s.clone()),
        Some(_) => Err(SchemaError::WrongFieldType(category, index, field)),
    }
}

/// Reads one record of the common shape.
fn read_text_record(item: &Node, category: Category, index: usize) -> (record: Result<
    TextRecord,
    SchemaError,
>)
    ensures
        agrees(record, text_record_of(*item, category, index)),
{
    match item {
        Node::Table(members) => {
            let id = match read_id(members, category, index) {
                Ok(id) => id,
                Err(e) => { return Err(e); },
            };
            let text = match read_text(members, category, index, Field::Text) {
                Ok(text) => text,
                Err(e) => { return Err(e); },
            };
            Ok(TextRecord { id, text })
        },
        _ => Err(SchemaError::EntryNotATable(category, index)),
    }
}

/// Reads one record of `Goods`.
fn read_goods_record(item: &Node, index: usize) -> (record: Result<GoodsRecord, SchemaError>)
    ensures
        agrees(record, goods_record_of(*item, index)),
{
    match item {
        Node::Table(members) => {
            let id = match read_id(members, Category::Goods, index) {
                Ok(id) => id,
                Err(e) => { return Err(e); },
            };
            let name = match read_text(members, Category::Goods, index, Field::Name) {
                Ok(text) => text,
                Err(e) => { return Err(e); },
            };
            let info = match read_text(members, Category::Goods, index, Field::Info) {
                Ok(text) => text,
                Err(e) => { return Err(e); },
            };
            let description = match read_text(members, Category::Goods, index, Field::Description) {
                Ok(text) => text,
                Err(e) => { return Err(e); },
            };
            Ok(GoodsRecord { id, name, info, description })
        },
        _ => Err(SchemaError::EntryNotATable(Category::Goods, index)),
    }
}

/// Finds the array of a category.
fn read_entries<'a>(document: &'a Vec<Member>, category: Category) -> (items: Result<
    &'a Vec<Node>,
    SchemaError,
>)
    ensures
        agrees(items, entries_of(document@, category)),
{
    match find(document, category.key()) {
        None => Err(SchemaError::MissingCategory(category)),
        Some(Node::Table(members)) => match find(members, "entries") {
            None => Err(SchemaError::MissingEntries(category)),
            Some(Node::Array(items)) => Ok(items),
            Some(_) => Err(SchemaError::EntriesNotAnArray(category)),
        },
        Some(_) => Err(SchemaError::CategoryNotATable(category)),
    }
}

/// Reads a category with records of the common shape.
fn read_text_category(document: &Vec<Member>, category: Category) -> (records: Result<
    Vec<TextRecord>,
    SchemaError,
>)
    ensures
        match text_category_of(document@, category) {
            Ok(v) => records matches Ok(r) && text_records_view(r@) == v,
            Err(e) => records matches Err(x) && x == e,
        },
{
    let items = match read_entries(document, category) {
        Ok(items) => items,
        Err(e) => { return Err(e); },
    };
    let mut records: Vec<TextRecord> = Vec::new();
    let mut i: usize = 0;
    assert(items@.take(0) =~= Seq::<Node>::empty());
    assert(text_records_view(records@) =~= Seq::<TextRecordView>::empty());
    while i < items.len()
        invariant
            i <= items@.len(),
            entries_of(document@, category) == Ok::<Seq<Node>, SchemaError>(items@),
            text_records_of(items@.take(i as int), category) == Ok::<
                Seq<TextRecordView>,
                SchemaError,
            >(text_records_view(records@)),
        decreases items@.len() - i,
    {
        let ghost before = items@.take(i as int);
        let ghost after = items@.take(i as int + 1);
        let ghost old_records = records@;
        proof {
            assert(after.drop_last() =~= before);
            assert(after.last() == items@[i as int]);
        }
        match read_text_record(&items[i], category, i) {
            Ok(record) => {
                records.push(record);
                assert(text_records_view(records@) =~= text_records_view(old_records).push(
                    record@,
                ));
            },
            Err(e) => {
                proof {
                    lemma_text_records_fault(items@, category, i as int + 1);
                }
                return Err(e);
            },
        }
        i += 1;
    }
    assert(items@.take(i as int) =~= items@);
    Ok(records)
}

/// Reads the category `Goods`.
fn read_goods_category(document: &Vec<Member>) -> (records: Result<Vec<GoodsRecord>, SchemaError>)
    ensures
        match goods_category_of(document@) {
            Ok(v) => records matches Ok(r) && goods_records_view(r@) == v,
            Err(e) => records matches Err(x) && x == e,
        },
{
    let items = match read_entries(document, Category::Goods) {
        Ok(items) => items,
        Err(e) => { return Err(e); },
    };
    let mut records: Vec<GoodsRecord> = Vec::new();
    let mut i: usize = 0;
    assert(items@.take(0) =~= Seq::<Node>::empty());
    assert(goods_records_view(records@) =~= Seq::<GoodsRecordView>::empty());
    while i < items.len()
        invariant
            i <= items@.len(),
            entries_of(document@, Category::Goods) == Ok::<Seq<Node>, SchemaError>(items@),
            goods_records_of(items@.take(i as int)) == Ok::<Seq<GoodsRecordView>, SchemaError>(
                goods_records_view(records@),
            ),
        decreases items@.len() - i,
    {
        let ghost before = items@.take(i as int);
        let ghost after = items@.take(i as int + 1);
        let ghost old_records = records@;
        proof {
            assert(after.drop_last() =~= before);
            assert(after.last() == items@[i as int]);
        }
        match read_goods_record(&items[i], i) {
            Ok(record) => {
                records.push(record);
                assert(goods_records_view(records@) =~= goods_records_view(old_records).push(
                    record@,
                ));
            },
            Err(e) => {
                proof {
                    lemma_goods_records_fault(items@, i as int + 1);
                }
                return Err(e);
            },
        }
        i += 1;
    }
    assert(items@.take(i as int) =~= items@);
    Ok(records)
}

/// A fault among the leading items of an array is the fault of the whole
/// array.
pub proof fn lemma_text_records_fault(items: Seq<Node>, category: Category, n: int)
    requires
        0 <= n <= items.len(),
        text_records_of(items.take(n), category) is Err,
    ensures
        text_records_of(items, category) == text_records_of(items.take(n), category),
    decreases items.len() - n,
{
    if n < items.len() {
        assert(items.take(n + 1).drop_last() =~= items.take(n));
        lemma_text_records_fault(items, category, n + 1);
    } else {
        assert(items.take(n) =~= items);
    }
}

/// A fault among the leading items of the array of `Goods` is the fault of
/// the whole array.
pub proof fn lemma_goods_records_fault(items: Seq<Node>, n: int)
    requires
        0 <= n <= items.len(),
        goods_records_of(items.take(n)) is Err,
    ensures
        goods_records_of(items) == goods_records_of(items.take(n)),
    decreases items.len() - n,
{
    if n < items.len() {
        assert(items.take(n + 1).drop_last() =~= items.take(n));
        lemma_goods_records_fault(items, n + 1);
    } else {
        assert(items.take(n) =~= items);
    }
}

/// An array that is read holds a record at every place, and the records
/// stand in the order of the array: none is left out, none is moved.
pub proof fn lemma_text_records_complete(items: Seq<Node>, category: Category)
    requires
        text_records_of(items, category) is Ok,
    ensures
        text_records_of(items, category)->Ok_0.len() == items.len(),
        forall|i: int|
            0 <= i < items.len() ==> text_record_of(#[trigger] items[i], category, i as usize)
                == Ok::<TextRecordView, SchemaError>(text_records_of(items, category)->Ok_0[i]),
    decreases items.len(),
{
    if items.len() > 0 {
        let front = items.drop_last();
        lemma_text_records_complete(front, category);
        let records = text_records_of(items, category)->Ok_0;
        assert forall|i: int| 0 <= i < items.len() implies text_record_of(
            #[trigger] items[i],
            category,
            i as usize,
        ) == Ok::<TextRecordView, SchemaError>(records[i]) by {
            if i < front.len() {
                assert(front[i] == items[i]);
            }
        }
    }
}

/// The array of `Goods`, where it is read, holds a record at every place,
/// and the records stand in the order of the array.
pub proof fn lemma_goods_records_complete(items: Seq<Node>)
    requires
        goods_records_of(items) is Ok,
    ensures
        goods_records_of(items)->Ok_0.len() == items.len(),
        forall|i: int|
            0 <= i < items.len() ==> goods_record_of(#[trigger] items[i], i as usize) == Ok::<
                GoodsRecordView,
                SchemaError,
            >(goods_records_of(items)->Ok_0[i]),
    decreases items.len(),
{
    if items.len() > 0 {
        let front = items.drop_last();
        lemma_goods_records_complete(front);
        let records = goods_records_of(items)->Ok_0;
        assert forall|i: int| 0 <= i < items.len() implies goods_record_of(
            #[trigger] items[i],
            i as usize,
        ) == Ok::<GoodsRecordView, SchemaError>(records[i]) by {
            if i < front.len() {
                assert(front[i] == items[i]);
            }
        }
    }
}

/// The document holds the category with its array, and the record at `index`
/// of that array is a table without the field.
pub open spec fn record_lacks(document: Node, category: Category, index: int, field: Field) -> bool {
    match document {
        Node::Table(members) => match entries_of(members@, category) {
            Ok(items) => 0 <= index < items.len() && match items[index] {
                Node::Table(record) => lookup(record@, field.spec_key()) is None,
                _ => false,
            },
            Err(_) => false,
        },
        _ => false,
    }
}

/// A document that lacks one of the six categories is refused.
pub proof fn lemma_missing_category_refused(document: Node, category: Category)
    requires
        document matches Node::Table(members) ==> lookup(members@, category.spec_key()) is None,
    ensures
        source_of(document) is Err,
{
}

/// A document in which a record of `Goods` lacks its identifier, name, info
/// or description is refused.
pub proof fn lemma_incomplete_goods_refused(document: Node, index: int, field: Field)
    requires
        field != Field::Text,
        record_lacks(document, Category::Goods, index, field),
    ensures
        source_of(document) is Err,
{
    let members = document->Table_0;
    let items = entries_of(members@, Category::Goods)->Ok_0;
    assert(goods_record_of(items[index], index as usize) is Err);
    if goods_records_of(items) is Ok {
        lemma_goods_records_complete(items);
    }
}

/// A document in which a record of another category lacks its identifier or
/// its text is refused.
pub proof fn lemma_incomplete_record_refused(
    document: Node,
    category: Category,
    index: int,
    field: Field,
)
    requires
        category != Category::Goods,
        field == Field::Id || field == Field::Text,
        record_lacks(document, category, index, field),
    ensures
        source_of(document) is Err,
{
    let members = document->Table_0;
    let items = entries_of(members@, category)->Ok_0;
    assert(text_record_of(items[index], category, index as usize) is Err);
    if text_records_of(items, category) is Ok {
        lemma_text_records_complete(items, category);
    }
}

/// Whether a key names one of the six categories.
fn names_category(key: &str) -> (known: bool)
    ensures
        known == is_category_key(key@),
{
    crate::text::str_eq(key, Category::Location.key()) || crate::text::str_eq(
        key,
        Category::Goods.key(),
    ) || crate::text::str_eq(key, Category::Menu.key()) || crate::text::str_eq(
        key,
        Category::ActionButtons.key(),
    ) || crate::text::str_eq(key, Category::EventText.key()) || crate::text::str_eq(
        key,
        Category::System.key(),
    )
}

/// Finds the first member whose key names no category.
fn find_unknown(document: &Vec<Member>) -> (place: Option<usize>)
    ensures
        place == first_unknown(document@),
{
    let mut i: usize = 0;
    while i < document.len()
        invariant
            i <= document@.len(),
            first_unknown(document@) == first_unknown_from(document@, i as int),
        decreases document@.len() - i,
    {
        if !names_category(document[i].key.as_str()) {
            return Some(i);
        }
        i += 1;
    }
    None
}

impl SourceTranslation {
    /// Reads the records of a document. The document must be a table that
    /// holds each of the six categories, and nothing else, as a table with an
    /// array `entries` of records of the category's shape; any other document
    /// is refused with its first fault, and no record of it is kept.
    pub fn from_document(document: &Node) -> (source: Result<SourceTranslation, SchemaError>)
        ensures
            agrees(source, source_of(*document)),
    {
        let members = match document {
            Node::Table(members) => members,
            _ => { return Err(SchemaError::NotATable); },
        };
        let location = match read_text_category(members, Category::Location) {
            Ok(records) => records,
            Err(e) => { return Err(e); },
        };
        let goods = match read_goods_category(members) {
            Ok(records) => records,
            Err(e) => { return Err(e); },
        };
        let menu = match read_text_category(members, Category::Menu) {
            Ok(records) => records,
            Err(e) => { return Err(e); },
        };
        let action_buttons = match read_text_category(members, Category::ActionButtons) {
            Ok(records) => records,
            Err(e) => { return Err(e); },
        };
        let event_text = match read_text_category(members, Category::EventText) {
            Ok(records) => records,
            Err(e) => { return Err(e); },
        };
        let system = match read_text_category(members, Category::System) {
            Ok(records) => records,
            Err(e) => { return Err(e); },
        };
        match find_unknown(members) {
            Some(place) => Err(SchemaError::UnknownCategory(place)),
            None => Ok(SourceTranslation { location, goods, menu, action_buttons, event_text, system }),
        }
    }
}

/// Why the text of a source file gives no records.
#[derive(Debug, PartialEq, Eq)]
pub enum LoadError {
    /// The text is no document; the parser's words say why.
    Syntax(String),
    /// The document departs from the schema.
    Schema(SchemaError),
}

/// What the text of a source file gives, decided from what the parser made of
/// it: a syntax error without a document, the records of the document or the
/// fault by which it is refused otherwise.
pub open spec fn loaded(document: Option<Node>) -> Result<SourceView, Option<SchemaError>> {
    match document {
        None => Err(None),
        Some(node) => match source_of(node) {
            Ok(source) => Ok(source),
            Err(e) => Err(Some(e)),
        },
    }
}

/// Reads the records of one language from the text of its source file. The
/// text either gives all records of all six categories or fails as a whole.
pub fn load_translation(text: &str) -> (source: Result<SourceTranslation, LoadError>)
    ensures
        match loaded(toml_document(text@)) {
            Ok(v) => source matches Ok(s) && s@ == v,
            Err(None) => source matches Err(LoadError::Syntax(_)),
            Err(Some(e)) => source matches Err(LoadError::Schema(x)) && x == e,
        },
{
    match read_document(text) {
        Err(error) => Err(LoadError::Syntax(error.message)),
        Ok(document) => match SourceTranslation::from_document(&document) {
            Ok(source) => Ok(source),
            Err(e) => Err(LoadError::Schema(e)),
        },
    }
}

} // verus!
