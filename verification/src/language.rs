//! Language selection: from a platform language code to an internal language
//! identifier, and from the identifier to one of the fourteen tables.

use vstd::prelude::*;
use crate::text::str_eq;
use crate::translation::Translation;

verus! {

/// The internal language identifiers, in the order of their numbers.
#[derive(Clone, Copy, Debug, PartialEq, Eq, Structural)]
pub enum LanguageId {
    JpnJP,
    EngUS,
    FraFR,
    SpaES,
    ItaIT,
    DeuDE,
    KorKR,
    ZhoTW,
    ZhoCN,
    PolPL,
    RusRU,
    PorBR,
    SpaAR,
    ThaTH,
    AraAE,
}

/// The languages that have a table of their own, in registry order: the order
/// in which their declarations are written.
#[derive(Clone, Copy, Debug, PartialEq, Eq, Structural)]
pub enum Bank {
    English,
    BrazilianPortuguese,
    ChineseSimplified,
    ChineseTraditional,
    French,
    German,
    Italian,
    Japanese,
    Korean,
    Polish,
    Russian,
    SpanishEu,
    SpanishLatin,
    Thai,
}

/// The number of registry languages.
pub const BANK_COUNT: usize = 14;

impl Bank {
    /// The place of the language in the registry.
    pub open spec fn spec_index(self) -> int {
        match self {
            Bank::English => 0,
            Bank::BrazilianPortuguese => 1,
            Bank::ChineseSimplified => 2,
            Bank::ChineseTraditional => 3,
            Bank::French => 4,
            Bank::German => 5,
            Bank::Italian => 6,
            Bank::Japanese => 7,
            Bank::Korean => 8,
            Bank::Polish => 9,
            Bank::Russian => 10,
            Bank::SpanishEu => 11,
            Bank::SpanishLatin => 12,
            Bank::Thai => 13,
        }
    }

    /// The language at a place of the registry.
    pub open spec fn at(index: int) -> Bank {
        if index == 0 {
            Bank::English
        } else if index == 1 {
            Bank::BrazilianPortuguese
        } else if index == 2 {
            Bank::ChineseSimplified
        } else if index == 3 {
            Bank::ChineseTraditional
        } else if index == 4 {
            Bank::French
        } else if index == 5 {
            Bank::German
        } else if index == 6 {
            Bank::Italian
        } else if index == 7 {
            Bank::Japanese
        } else if index == 8 {
            Bank::Korean
        } else if index == 9 {
            Bank::Polish
        } else if index == 10 {
            Bank::Russian
        } else if index == 11 {
            Bank::SpanishEu
        } else if index == 12 {
            Bank::SpanishLatin
        } else {
            Bank::Thai
        }
    }

    /// The name under which the table of the language is declared.
    pub open spec fn spec_name(self) -> Seq<char> {
        match self {
            Bank::English => "ENGLISH"@,
            Bank::BrazilianPortuguese => "BRAZILIAN_PORTUGUESE"@,
            Bank::ChineseSimplified => "CHINESE_SIMPLIFIED"@,
            Bank::ChineseTraditional => "CHINESE_TRADITIONAL"@,
            Bank::French => "FRENCH"@,
            Bank::German => "GERMAN"@,
            Bank::Italian => "ITALIAN"@,
            Bank::Japanese => "JAPANESE"@,
            Bank::Korean => "KOREAN"@,
            Bank::Polish => "POLISH"@,
            Bank::Russian => "RUSSIAN"@,
            Bank::SpanishEu => "SPANISH_EU"@,
            Bank::SpanishLatin => "SPANISH_LATIN"@,
            Bank::Thai => "THAI"@,
        }
    }

    /// The path of the source document of the language.
    pub open spec fn spec_source_path(self) -> Seq<char> {
        match self {
            Bank::English => "data/english.toml"@,
            Bank::BrazilianPortuguese => "data/brazilian_portuguese.toml"@,
            Bank::ChineseSimplified => "data/chinese_simplified.toml"@,
            Bank::ChineseTraditional => "data/chinese_traditional.toml"@,
            Bank::French => "data/french.toml"@,
            Bank::German => "data/german.toml"@,
            Bank::Italian => "data/italian.toml"@,
            Bank::Japanese => "data/japanese.toml"@,
            Bank::Korean => "data/korean.toml"@,
            Bank::Polish => "data/polish.toml"@,
            Bank::Russian => "data/russian.toml"@,
            Bank::SpanishEu => "data/spanish_eu.toml"@,
            Bank::SpanishLatin => "data/spanish_latin.toml"@,
            Bank::Thai => "data/thai.toml"@,
        }
    }

    /// The place of the language in the registry, from 0 to 13.
    pub fn index(&self) -> (i: usize)
        ensures
            i == self.spec_index(),
            i < BANK_COUNT,
            Bank::at(i as int) == *self,
    {
        match self {
            Bank::English => 0,
            Bank::BrazilianPortuguese => 1,
            Bank::ChineseSimplified => 2,
            Bank::ChineseTraditional => 3,
            Bank::French => 4,
            Bank::German => 5,
            Bank::Italian => 6,
            Bank::Japanese => 7,
            Bank::Korean => 8,
            Bank::Polish => 9,
            Bank::Russian => 10,
            Bank::SpanishEu => 11,
            Bank::SpanishLatin => 12,
            Bank::Thai => 13,
        }
    }

    /// The language at a place of the registry; nothing from 14 on.
    pub fn from_index(index: usize) -> (bank: Option<Bank>)
        ensures
            index < BANK_COUNT ==> bank == Some(Bank::at(index as int)),
            index >= BANK_COUNT ==> bank is None,
            bank matches Some(b) ==> b.spec_index() == index,
    {
        match index {
            0 => Some(Bank::English),
            1 => Some(Bank::BrazilianPortuguese),
            2 => Some(Bank::ChineseSimplified),
            3 => Some(Bank::ChineseTraditional),
            4 => Some(Bank::French),
            5 => Some(Bank::German),
            6 => Some(Bank::Italian),
            7 => Some(Bank::Japanese),
            8 => Some(Bank::Korean),
            9 => Some(Bank::Polish),
            10 => Some(Bank::Russian),
            11 => Some(Bank::SpanishEu),
            12 => Some(Bank::SpanishLatin),
            13 => Some(Bank::Thai),
            _ => None,
        }
    }

    /// The name under which the table of the language is declared.
    pub fn name(&self) -> (name: &'static str)
        ensures
            name@ == self.spec_name(),
    {
        match self {
            Bank::English => "ENGLISH",
            Bank::BrazilianPortuguese => "BRAZILIAN_PORTUGUESE",
            Bank::ChineseSimplified => "CHINESE_SIMPLIFIED",
            Bank::ChineseTraditional => "CHINESE_TRADITIONAL",
            Bank::French => "FRENCH",
            Bank::German => "GERMAN",
            Bank::Italian => "ITALIAN",
            Bank::Japanese => "JAPANESE",
            Bank::Korean => "KOREAN",
            Bank::Polish => "POLISH",
            Bank::Russian => "RUSSIAN",
            Bank::SpanishEu => "SPANISH_EU",
            Bank::SpanishLatin => "SPANISH_LATIN",
            Bank::Thai => "THAI",
        }
    }

    /// The path of the source document of the language.
    pub fn source_path(&self) -> (path: &'static str)
        ensures
            path@ == self.spec_source_path(),
    {
        match self {
            Bank::English => "data/english.toml",
            Bank::BrazilianPortuguese => "data/brazilian_portuguese.toml",
            Bank::ChineseSimplified => "data/chinese_simplified.toml",
            Bank::ChineseTraditional => "data/chinese_traditional.toml",
            Bank::French => "data/french.toml",
            Bank::German => "data/german.toml",
            Bank::Italian => "data/italian.toml",
            Bank::Japanese => "data/japanese.toml",
            Bank::Korean => "data/korean.toml",
            Bank::Polish => "data/polish.toml",
            Bank::Russian => "data/russian.toml",
            Bank::SpanishEu => "data/spanish_eu.toml",
            Bank::SpanishLatin => "data/spanish_latin.toml",
            Bank::Thai => "data/thai.toml",
        }
    }
}

/// The registry: the fourteen languages in the order of their declarations.
pub fn registry() -> (banks: Vec<Bank>)
    ensures
        banks@.len() == BANK_COUNT,
        forall|i: int| 0 <= i < BANK_COUNT ==> banks@[i] == Bank::at(i),
{
    let mut banks: Vec<Bank> = Vec::new();
    banks.push(Bank::English);
    banks.push(Bank::BrazilianPortuguese);
    banks.push(Bank::ChineseSimplified);
    banks.push(Bank::ChineseTraditional);
    banks.push(Bank::French);
    banks.push(Bank::German);
    banks.push(Bank::Italian);
    banks.push(Bank::Japanese);
    banks.push(Bank::Korean);
    banks.push(Bank::Polish);
    banks.push(Bank::Russian);
    banks.push(Bank::SpanishEu);
    banks.push(Bank::SpanishLatin);
    banks.push(Bank::Thai);
    banks
}

/// The finished tables, one for each registry language.
pub struct TranslationBanks {
    pub english: &'static Translation,
    pub brazilian_portuguese: &'static Translation,
    pub chinese_simplified: &'static Translation,
    pub chinese_traditional: &'static Translation,
    pub french: &'static Translation,
    pub german: &'static Translation,
    pub italian: &'static Translation,
    pub japanese: &'static Translation,
    pub korean: &'static Translation,
    pub polish: &'static Translation,
    pub russian: &'static Translation,
    pub spanish_eu: &'static Translation,
    pub spanish_latin: &'static Translation,
    pub thai: &'static Translation,
}

impl TranslationBanks {
    /// The table of a registry language.
    pub open spec fn table(&self, bank: Bank) -> &'static Translation {
        match bank {
            Bank::English => self.english,
            Bank::BrazilianPortuguese => self.brazilian_portuguese,
            Bank::ChineseSimplified => self.chinese_simplified,
            Bank::ChineseTraditional => self.chinese_traditional,
            Bank::French => self.french,
            Bank::German => self.german,
            Bank::Italian => self.italian,
            Bank::Japanese => self.japanese,
            Bank::Korean => self.korean,
            Bank::Polish => self.polish,
            Bank::Russian => self.russian,
            Bank::SpanishEu => self.spanish_eu,
            Bank::SpanishLatin => self.spanish_latin,
            Bank::Thai => self.thai,
        }
    }

    /// The table of a registry language.
    pub fn get(&self, bank: Bank) -> (table: &'static Translation)
        ensures
            table == self.table(bank),
    {
        match bank {
            Bank::English => self.english,
            Bank::BrazilianPortuguese => self.brazilian_portuguese,
            Bank::ChineseSimplified => self.chinese_simplified,
            Bank::ChineseTraditional => self.chinese_traditional,
            Bank::French => self.french,
            Bank::German => self.german,
            Bank::Italian => self.italian,
            Bank::Japanese => self.japanese,
            Bank::Korean => self.korean,
            Bank::Polish => self.polish,
            Bank::Russian => self.russian,
            Bank::SpanishEu => self.spanish_eu,
            Bank::SpanishLatin => self.spanish_latin,
            Bank::Thai => self.thai,
        }
    }
}

/// The identifier for a platform language code. Fourteen codes have an
/// identifier of their own; every other text, known to the platform or not,
/// stands for `EngUS`.
pub open spec fn language_of_code(code: Seq<char>) -> LanguageId {
    if code == "brazilian"@ {
        LanguageId::PorBR
    } else if code == "french"@ {
        LanguageId::FraFR
    } else if code == "german"@ {
        LanguageId::DeuDE
    } else if code == "italian"@ {
        LanguageId::ItaIT
    } else if code == "japanese"@ {
        LanguageId::JpnJP
    } else if code == "koreana"@ {
        LanguageId::KorKR
    } else if code == "polish"@ {
        LanguageId::PolPL
    } else if code == "russian"@ {
        LanguageId::RusRU
    } else if code == "schinese"@ {
        LanguageId::ZhoCN
    } else if code == "spanish"@ {
        LanguageId::SpaES
    } else if code == "tchinese"@ {
        LanguageId::ZhoTW
    } else if code == "thai"@ {
        LanguageId::ThaTH
    } else if code == "latam"@ {
        LanguageId::SpaAR
    } else if code == "arabic"@ {
        LanguageId::AraAE
    } else {
        LanguageId::EngUS
    }
}

impl LanguageId {
    /// The number of the identifier, from 0 for `JpnJP` to 14 for `AraAE`.
    pub open spec fn spec_id(self) -> int {
        match self {
            LanguageId::JpnJP => 0,
            LanguageId::EngUS => 1,
            LanguageId::FraFR => 2,
            LanguageId::SpaES => 3,
            LanguageId::ItaIT => 4,
            LanguageId::DeuDE => 5,
            LanguageId::KorKR => 6,
            LanguageId::ZhoTW => 7,
            LanguageId::ZhoCN => 8,
            LanguageId::PolPL => 9,
            LanguageId::RusRU => 10,
            LanguageId::PorBR => 11,
            LanguageId::SpaAR => 12,
            LanguageId::ThaTH => 13,
            LanguageId::AraAE => 14,
        }
    }

    /// The registry language whose table serves the identifier. Arabic has no
    /// table of its own and is served by the English one.
    pub open spec fn spec_bank(self) -> Bank {
        match self {
            LanguageId::JpnJP => Bank::Japanese,
            LanguageId::EngUS => Bank::English,
            LanguageId::FraFR => Bank::French,
            LanguageId::SpaES => Bank::SpanishEu,
            LanguageId::ItaIT => Bank::Italian,
            LanguageId::DeuDE => Bank::German,
            LanguageId::KorKR => Bank::Korean,
            LanguageId::ZhoTW => Bank::ChineseTraditional,
            LanguageId::ZhoCN => Bank::ChineseSimplified,
            LanguageId::PolPL => Bank::Polish,
            LanguageId::RusRU => Bank::Russian,
            LanguageId::PorBR => Bank::BrazilianPortuguese,
            LanguageId::SpaAR => Bank::SpanishLatin,
            LanguageId::ThaTH => Bank::Thai,
            LanguageId::AraAE => Bank::English,
        }
    }

    /// The number of the identifier.
    pub fn id(&self) -> (n: u32)
        ensures
            n == self.spec_id(),
            n <= 14,
    {
        match self {
            LanguageId::JpnJP => 0,
            LanguageId::EngUS => 1,
            LanguageId::FraFR => 2,
            LanguageId::SpaES => 3,
            LanguageId::ItaIT => 4,
            LanguageId::DeuDE => 5,
            LanguageId::KorKR => 6,
            LanguageId::ZhoTW => 7,
            LanguageId::ZhoCN => 8,
            LanguageId::PolPL => 9,
            LanguageId::RusRU => 10,
            LanguageId::PorBR => 11,
            LanguageId::SpaAR => 12,
            LanguageId::ThaTH => 13,
            LanguageId::AraAE => 14,
        }
    }

    /// The identifier for a platform language code. The function is total:
    /// a code that has no identifier of its own, among them the platform's
    /// `bulgarian`, `czech`, `danish`, `dutch`, `english`, `finnish`, `greek`,
    /// `hungarian`, `norwegian`, `portugues`, `romanian`, `swedish`, `turkish`,
    /// `ukrainian` and `vietnamese`, and any text that the platform does not
    /// know, gives `EngUS`.
    pub fn from_steam_api(steam_api_lang: &'static str) -> (language: LanguageId)
        ensures
            language == language_of_code(steam_api_lang@),
    {
        if str_eq(steam_api_lang, "brazilian") {
            LanguageId::PorBR
        } else if str_eq(steam_api_lang, "french") {
            LanguageId::FraFR
        } else if str_eq(steam_api_lang, "german") {
            LanguageId::DeuDE
        } else if str_eq(steam_api_lang, "italian") {
            LanguageId::ItaIT
        } else if str_eq(steam_api_lang, "japanese") {
            LanguageId::JpnJP
        } else if str_eq(steam_api_lang, "koreana") {
            LanguageId::KorKR
        } else if str_eq(steam_api_lang, "polish") {
            LanguageId::PolPL
        } else if str_eq(steam_api_lang, "russian") {
            LanguageId::RusRU
        } else if str_eq(steam_api_lang, "schinese") {
            LanguageId::ZhoCN
        } else if str_eq(steam_api_lang, "spanish") {
            LanguageId::SpaES
        } else if str_eq(steam_api_lang, "tchinese") {
            LanguageId::ZhoTW
        } else if str_eq(steam_api_lang, "thai") {
            LanguageId::ThaTH
        } else if str_eq(steam_api_lang, "latam") {
            LanguageId::SpaAR
        } else if str_eq(steam_api_lang, "arabic") {
            LanguageId::AraAE
        } else {
            LanguageId::EngUS
        }
    }

    /// The registry language whose table serves the identifier.
    pub fn bank(&self) -> (bank: Bank)
        ensures
            bank == self.spec_bank(),
    {
        match self {
            LanguageId::JpnJP => Bank::Japanese,
            LanguageId::EngUS => Bank::English,
            LanguageId::FraFR => Bank::French,
            LanguageId::SpaES => Bank::SpanishEu,
            LanguageId::ItaIT => Bank::Italian,
            LanguageId::DeuDE => Bank::German,
            LanguageId::KorKR => Bank::Korean,
            LanguageId::ZhoTW => Bank::ChineseTraditional,
            LanguageId::ZhoCN => Bank::ChineseSimplified,
            LanguageId::PolPL => Bank::Polish,
            LanguageId::RusRU => Bank::Russian,
            LanguageId::PorBR => Bank::BrazilianPortuguese,
            LanguageId::SpaAR => Bank::SpanishLatin,
            LanguageId::ThaTH => Bank::Thai,
            LanguageId::AraAE => Bank::English,
        }
    }

    /// The table that serves the identifier, among the finished tables. The
    /// function is total: the identifier without a table of its own is served
    /// by the English table.
    pub fn to_translation_bank(&self, banks: &TranslationBanks) -> (table: &'static Translation)
        ensures
            table == banks.table(self.spec_bank()),
            *self == LanguageId::AraAE ==> table == banks.english,
    {
        banks.get(self.bank())
    }
}

/// Every platform code is served by some table, and a code without an
/// identifier of its own by the English one.
pub proof fn lemma_selection_total(code: Seq<char>, banks: TranslationBanks)
    ensures
        language_of_code(code) == LanguageId::EngUS ==> banks.table(
            language_of_code(code).spec_bank(),
        ) == banks.english,
        0 <= language_of_code(code).spec_id() <= 14,
        0 <= language_of_code(code).spec_bank().spec_index() < BANK_COUNT,
{
}

} // verus!
