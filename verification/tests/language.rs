use translation_bank::{
    registry, ActionButtons, Bank, EventText, Goods, LanguageId, Location, LocationEntry, Menu,
    System, Translation, TranslationBanks, Utf16String, BANK_COUNT,
};

fn table(marker: u32) -> &'static Translation {
    let data: &'static [u16] = Box::leak(vec![0u16].into_boxed_slice());
    let entries: &'static [LocationEntry] =
        Box::leak(vec![LocationEntry { id: marker, text: Utf16String { data } }].into_boxed_slice());
    Box::leak(Box::new(Translation {
        location: Location { entries },
        goods: Goods { entries: &[] },
        menu: Menu { entries: &[] },
        action_buttons: ActionButtons { entries: &[] },
        event_text: EventText { entries: &[] },
        system: System { entries: &[] },
    }))
}

fn banks() -> TranslationBanks {
    TranslationBanks {
        english: table(0),
        brazilian_portuguese: table(1),
        chinese_simplified: table(2),
        chinese_traditional: table(3),
        french: table(4),
        german: table(5),
        italian: table(6),
        japanese: table(7),
        korean: table(8),
        polish: table(9),
        russian: table(10),
        spanish_eu: table(11),
        spanish_latin: table(12),
        thai: table(13),
    }
}

fn marker(table: &Translation) -> u32 {
    table.location.entries[0].id
}

#[test]
fn simplified_chinese_code_selects_its_own_table() {
    let language = LanguageId::from_steam_api("schinese");
    assert_eq!(language, LanguageId::ZhoCN);
    assert_eq!(language.bank(), Bank::ChineseSimplified);
    let banks = banks();
    assert!(std::ptr::eq(language.to_translation_bank(&banks), banks.chinese_simplified));
}

#[test]
fn arabic_code_is_served_by_the_english_table() {
    let language = LanguageId::from_steam_api("arabic");
    assert_eq!(language, LanguageId::AraAE);
    assert_eq!(language.bank(), Bank::English);
    let banks = banks();
    assert!(std::ptr::eq(language.to_translation_bank(&banks), banks.english));
    assert_eq!(marker(language.to_translation_bank(&banks)), 0);
}

#[test]
fn unknown_code_falls_back_to_english() {
    assert_eq!(LanguageId::from_steam_api("xklingon"), LanguageId::EngUS);
    assert_eq!(LanguageId::from_steam_api(""), LanguageId::EngUS);
    assert_eq!(LanguageId::from_steam_api("Schinese"), LanguageId::EngUS);
    assert_eq!(LanguageId::from_steam_api("schinese "), LanguageId::EngUS);
    assert_eq!(LanguageId::from_steam_api("thai\u{e9}"), LanguageId::EngUS);
}

#[test]
fn every_platform_code_has_its_identifier() {
    let expected = [
        ("brazilian", LanguageId::PorBR),
        ("bulgarian", LanguageId::EngUS),
        ("czech", LanguageId::EngUS),
        ("danish", LanguageId::EngUS),
        ("dutch", LanguageId::EngUS),
        ("english", LanguageId::EngUS),
        ("finnish", LanguageId::EngUS),
        ("french", LanguageId::FraFR),
        ("german", LanguageId::DeuDE),
        ("greek", LanguageId::EngUS),
        ("hungarian", LanguageId::EngUS),
        ("italian", LanguageId::ItaIT),
        ("japanese", LanguageId::JpnJP),
        ("koreana", LanguageId::KorKR),
        ("norwegian", LanguageId::EngUS),
        ("polish", LanguageId::PolPL),
        ("portugues", LanguageId::EngUS),
        ("romanian", LanguageId::EngUS),
        ("russian", LanguageId::RusRU),
        ("schinese", LanguageId::ZhoCN),
        ("spanish", LanguageId::SpaES),
        ("swedish", LanguageId::EngUS),
        ("tchinese", LanguageId::ZhoTW),
        ("thai", LanguageId::ThaTH),
        ("turkish", LanguageId::EngUS),
        ("ukrainian", LanguageId::EngUS),
        ("latam", LanguageId::SpaAR),
        ("vietnamese", LanguageId::EngUS),
        ("arabic", LanguageId::AraAE),
    ];
    for (code, language) in expected {
        assert_eq!(LanguageId::from_steam_api(code), language, "{}", code);
    }
}

#[test]
fn identifiers_are_numbered_from_zero_to_fourteen() {
    let all = [
        LanguageId::JpnJP,
        LanguageId::EngUS,
        LanguageId::FraFR,
        LanguageId::SpaES,
        LanguageId::ItaIT,
        LanguageId::DeuDE,
        LanguageId::KorKR,
        LanguageId::ZhoTW,
        LanguageId::ZhoCN,
        LanguageId::PolPL,
        LanguageId::RusRU,
        LanguageId::PorBR,
        LanguageId::SpaAR,
        LanguageId::ThaTH,
        LanguageId::AraAE,
    ];
    for (number, language) in all.iter().enumerate() {
        assert_eq!(language.id() as usize, number);
    }
}

#[test]
fn every_identifier_is_served_by_the_table_of_its_language() {
    let banks = banks();
    let expected = [
        (LanguageId::JpnJP, 7),
        (LanguageId::EngUS, 0),
        (LanguageId::FraFR, 4),
        (LanguageId::SpaES, 11),
        (LanguageId::ItaIT, 6),
        (LanguageId::DeuDE, 5),
        (LanguageId::KorKR, 8),
        (LanguageId::ZhoTW, 3),
        (LanguageId::ZhoCN, 2),
        (LanguageId::PolPL, 9),
        (LanguageId::RusRU, 10),
        (LanguageId::PorBR, 1),
        (LanguageId::SpaAR, 12),
        (LanguageId::ThaTH, 13),
        (LanguageId::AraAE, 0),
    ];
    for (language, place) in expected {
        assert_eq!(marker(language.to_translation_bank(&banks)), place);
        assert_eq!(language.bank().index(), place as usize);
        assert_eq!(marker(banks.get(language.bank())), place);
    }
}

#[test]
fn registry_lists_fourteen_languages_in_order() {
    let expected = [
        ("ENGLISH", "data/english.toml"),
        ("BRAZILIAN_PORTUGUESE", "data/brazilian_portuguese.toml"),
        ("CHINESE_SIMPLIFIED", "data/chinese_simplified.toml"),
        ("CHINESE_TRADITIONAL", "data/chinese_traditional.toml"),
        ("FRENCH", "data/french.toml"),
        ("GERMAN", "data/german.toml"),
        ("ITALIAN", "data/italian.toml"),
        ("JAPANESE", "data/japanese.toml"),
        ("KOREAN", "data/korean.toml"),
        ("POLISH", "data/polish.toml"),
        ("RUSSIAN", "data/russian.toml"),
        ("SPANISH_EU", "data/spanish_eu.toml"),
        ("SPANISH_LATIN", "data/spanish_latin.toml"),
        ("THAI", "data/thai.toml"),
    ];
    let banks = registry();
    assert_eq!(banks.len(), 14);
    assert_eq!(BANK_COUNT, 14);
    for (place, bank) in banks.iter().enumerate() {
        assert_eq!(bank.name(), expected[place].0);
        assert_eq!(bank.source_path(), expected[place].1);
        assert_eq!(bank.index(), place);
        assert_eq!(Bank::from_index(place), Some(*bank));
    }
    assert_eq!(Bank::from_index(14), None);
    assert_eq!(Bank::from_index(usize::MAX), None);
}
