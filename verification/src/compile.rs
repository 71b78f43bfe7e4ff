//! The whole build step as one computation: from the texts of the fourteen
//! source files to the readable text of the module that declares their
//! tables. One bad source fails the build; no module is made of the others.

use vstd::prelude::*;
use crate::document::toml_document;
use crate::language::{Bank, BANK_COUNT};
use crate::pretty::{pretty_text, synthesize};
use crate::schema::{
    load_translation, loaded, LoadError, SchemaError, SourceTranslation, SourceView,
};
use crate::synthesis::{module_text, sources_view, Encoding};

verus! {

/// Why there is no module.
#[derive(Debug, PartialEq, Eq)]
pub enum CompileError {
    /// There are not as many source texts as registry languages; the number
    /// of texts is given.
    LanguageCount(usize),
    /// The source of a language gives no records.
    Source(Bank, LoadError),
}

/// The texts of the source files as mathematical values, in order.
pub open spec fn texts_view(texts: Seq<String>) -> Seq<Seq<char>> {
    Seq::new(texts.len(), |i: int| texts[i]@)
}

/// What the leading `count` texts give: the records of each, in order, or the
/// place of the first text that gives none, with the fault of its document
/// where it is one.
pub open spec fn loaded_all(texts: Seq<Seq<char>>, count: int) -> Result<
    Seq<SourceView>,
    (int, Option<SchemaError>),
>
    decreases count,
{
    if count <= 0 {
        Ok(Seq::empty())
    } else {
        match loaded_all(texts, count - 1) {
            Err(failure) => Err(failure),
            Ok(front) => match loaded(toml_document(texts[count - 1])) {
                Ok(source) => Ok(front.push(source)),
                Err(fault) => Err((count - 1, fault)),
            },
        }
    }
}

/// Whether an error is that of the language at the given place of the
/// registry: a syntax error where no fault is given, the given fault of its
/// document otherwise.
pub open spec fn fails_at(error: CompileError, place: int, fault: Option<SchemaError>) -> bool {
    match error {
        CompileError::Source(bank, LoadError::Syntax(_)) => bank == Bank::at(place)
            && fault is None,
        CompileError::Source(bank, LoadError::Schema(e)) => bank == Bank::at(place) && fault
            == Some(e),
        CompileError::LanguageCount(_) => false,
    }
}

/// A failure among the leading texts is the failure of all of them.
pub proof fn lemma_first_failure(texts: Seq<Seq<char>>, count: int, total: int)
    requires
        0 <= count <= total,
        loaded_all(texts, count) is Err,
    ensures
        loaded_all(texts, total) == loaded_all(texts, count),
    decreases total - count,
{
    if count < total {
        lemma_first_failure(texts, count + 1, total);
    }
}

/// Reads the records of every registry language from the text of its source
/// file. `texts` holds the texts in registry order. The languages are read in
/// that order, and the first that gives no records fails the whole.
pub fn load_all(texts: &Vec<String>) -> (sources: Result<Vec<SourceTranslation>, CompileError>)
    ensures
        texts@.len() != BANK_COUNT ==> sources == Err::<Vec<SourceTranslation>, CompileError>(
            CompileError::LanguageCount(texts.len()),
        ),
        texts@.len() == BANK_COUNT ==> match loaded_all(texts_view(texts@), BANK_COUNT as int) {
            Ok(views) => sources matches Ok(s) && sources_view(s@) == views,
            Err((place, fault)) => sources matches Err(error) && fails_at(error, place, fault),
        },
{
    if texts.len() != BANK_COUNT {
        return Err(CompileError::LanguageCount(texts.len()));
    }
    let ghost views = texts_view(texts@);
    let mut sources: Vec<SourceTranslation> = Vec::new();
    let mut i: usize = 0;
    assert(sources_view(sources@) =~= Seq::<SourceView>::empty());
    while i < BANK_COUNT
        invariant
            i <= BANK_COUNT,
            texts@.len() == BANK_COUNT,
            views == texts_view(texts@),
            loaded_all(views, i as int) == Ok::<Seq<SourceView>, (int, Option<SchemaError>)>(
                sources_view(sources@),
            ),
        decreases BANK_COUNT - i,
    {
        let bank = match Bank::from_index(i) {
            Some(bank) => bank,
            None => { return Err(CompileError::LanguageCount(texts.len())); },
        };
        let ghost before = sources@;
        assert(views[i as int] == texts@[i as int]@);
        match load_translation(texts[i].as_str()) {
            Ok(source) => {
                sources.push(source);
                assert(sources_view(sources@) =~= sources_view(before).push(source@));
            },
            Err(error) => {
                proof {
                    lemma_first_failure(views, i as int + 1, BANK_COUNT as int);
                }
                return Err(CompileError::Source(bank, error));
            },
        }
        i += 1;
    }
    Ok(sources)
}

/// The build step: reads the records of every registry language from the text
/// of its source file, synthesizes the module that declares their tables, and
/// formats it. `texts` holds the texts in registry order. The outcome is
/// decided by the texts and the encoding: the build fails as a whole at the
/// first language whose text gives no records.
pub fn compile(texts: &Vec<String>, encoding: Encoding) -> (module: Result<String, CompileError>)
    ensures
        texts@.len() != BANK_COUNT ==> module == Err::<String, CompileError>(
            CompileError::LanguageCount(texts.len()),
        ),
        texts@.len() == BANK_COUNT ==> match loaded_all(texts_view(texts@), BANK_COUNT as int) {
            Ok(views) => module matches Ok(text) && text@ == pretty_text(
                module_text(views, encoding),
            ),
            Err((place, fault)) => module matches Err(error) && fails_at(error, place, fault),
        },
{
    let sources = match load_all(texts) {
        Ok(sources) => sources,
        Err(error) => { return Err(error); },
    };
    proof {
        lemma_loaded_count(texts_view(texts@), BANK_COUNT as int);
    }
    match synthesize(&sources, encoding) {
        Some(text) => Ok(text),
        None => Err(CompileError::LanguageCount(texts.len())),
    }
}

/// Texts that all give records give as many sources as there are texts.
pub proof fn lemma_loaded_count(texts: Seq<Seq<char>>, count: int)
    requires
        0 <= count,
        loaded_all(texts, count) is Ok,
    ensures
        loaded_all(texts, count)->Ok_0.len() == count,
    decreases count,
{
    if count > 0 {
        lemma_loaded_count(texts, count - 1);
    }
}

/// A build is decided by the texts alone: two collections of texts that hold
/// the same characters give the same module, byte for byte, or fail at the
/// same language by the same fault.
pub proof fn lemma_build_deterministic(first: Seq<String>, second: Seq<String>, encoding: Encoding)
    requires
        texts_view(first) == texts_view(second),
    ensures
        loaded_all(texts_view(first), BANK_COUNT as int) == loaded_all(
            texts_view(second),
            BANK_COUNT as int,
        ),
        loaded_all(texts_view(first), BANK_COUNT as int) matches Ok(views) ==> pretty_text(
            module_text(views, encoding),
        ) == pretty_text(module_text(loaded_all(texts_view(second), BANK_COUNT as int)->Ok_0, encoding)),
{
}

/// One source that departs from the schema fails the build: where the
/// document of a language is refused, there is no module.
pub proof fn lemma_bad_source_fails_build(texts: Seq<Seq<char>>, place: int)
    requires
        0 <= place < BANK_COUNT,
        loaded(toml_document(texts[place])) is Err,
    ensures
        loaded_all(texts, BANK_COUNT as int) is Err,
{
    if loaded_all(texts, place) is Err {
        lemma_first_failure(texts, place, BANK_COUNT as int);
    } else {
        lemma_first_failure(texts, place + 1, BANK_COUNT as int);
    }
}

} // verus!
