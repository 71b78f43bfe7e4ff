//! Localization tables for a game modification: the schema of the per-language
//! source documents, the synthesis of static table literals from them, the two
//! text encodings, the formatting fallback chain, and the selection of a table
//! from a platform language code.

pub mod compile;
pub mod document;
pub mod escape;
pub mod language;
pub mod pretty;
pub mod schema;
pub mod synthesis;
pub mod text;
pub mod translation;
pub mod utf16;

pub use language::{registry, Bank, LanguageId, TranslationBanks, BANK_COUNT};
pub use translation::{
    ActionButtons, ActionButtonsEntry, EventText, EventTextEntry, Goods, GoodsEntry, Location,
    LocationEntry, Menu, MenuEntry, System, SystemEntry, Translation, Utf16String,
};
