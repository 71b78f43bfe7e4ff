//! Formatting of synthesized text: a chain of attempts, each tried only where
//! the one before it gave nothing, that ends in a rendering which always
//! exists.

use vstd::prelude::*;
use crate::language::BANK_COUNT;
use crate::schema::SourceTranslation;
use crate::synthesis::{generate_module, is_synthesized, module_text, sources_view, Encoding};
use crate::text::{extend_range, push_range, to_chars};

verus! {

/// The width of one level of indentation, in characters.
pub const INDENT: usize = 4;

/// The line that opens the synthetic function.
pub open spec fn opening() -> Seq<char> {
    "fn deleteme() {\n"@
}

/// The lines that close the synthetic function.
pub open spec fn closing() -> Seq<char> {
    "\n}\n"@
}

/// A text as the body of the synthetic function.
pub open spec fn wrapped(source: Seq<char>) -> Seq<char> {
    opening() + source + closing()
}

/// The texts that the formatter is asked to format: what this crate
/// synthesizes, as it stands or inside the synthetic function.
pub open spec fn can_format(source: Seq<char>) -> bool {
    is_synthesized(source) || exists|inner: Seq<char>|
        is_synthesized(inner) && source == #[trigger] wrapped(inner)
}

/// The formatted text of a complete file: what `prettyplease::unparse` makes
/// of the file that `syn::parse_str` reads from the source, and nothing where
/// the source does not parse as a file.
pub uninterp spec fn formatted_file(source: Seq<char>) -> Option<Seq<char>>;

/// The flat rendering of the tokens of a source: what `proc_macro2` prints for
/// the token stream that it reads from the source, and nothing where the
/// source is no token stream.
pub uninterp spec fn token_rendering(source: Seq<char>) -> Option<Seq<char>>;

/// `syn::parse_str`, at the type `syn::File`, and `prettyplease::unparse` on
/// the file it gives: formats a source that is a complete file. The contract
/// claims that the outcome depends on the source alone. It is asked of
/// synthesized sources only, as they stand or inside the synthetic function:
/// the printer stops on syntax that it does not know, and a file read from
/// such a source holds nothing but imports, statics, and literals of structs,
/// arrays, numbers and strings.
#[verifier::external_body]
fn format_file(source: &str) -> (formatted: Option<String>)
    requires
        can_format(source@),
    ensures
        match formatted_file(source@) {
            Some(text) => formatted matches Some(s) && s@ == text,
            None => formatted is None,
        },
{
    match syn::parse_str::<syn::File>(source) {
        Ok(file) => Some(prettyplease::unparse(&file)),
        Err(_) => None,
    }
}

/// `proc_macro2::TokenStream::from_str`, and `to_string` on the stream it
/// gives: prints the tokens of a source one after another. The contract
/// claims only that the outcome depends on the source alone. It is asked of
/// synthesized sources only: their brackets nest to a fixed depth, and the
/// printer descends once for every level.
#[verifier::external_body]
fn render_tokens(source: &str) -> (rendered: Option<String>)
    requires
        is_synthesized(source@),
    ensures
        match token_rendering(source@) {
            Some(text) => rendered matches Some(s) && s@ == text,
            None => rendered is None,
        },
{
    match source.parse::<proc_macro2::TokenStream>() {
        Ok(tokens) => Some(tokens.to_string()),
        Err(_) => None,
    }
}

/// The text without the opening line of the synthetic function, where it
/// starts with that line.
pub open spec fn without_opening(text: Seq<char>) -> Seq<char> {
    if opening().is_prefix_of(text) {
        text.skip(opening().len() as int)
    } else {
        text
    }
}

/// The place of the last closing brace at the start of a line, among the
/// leading `end` characters: the place of the newline before it.
pub open spec fn closing_before(text: Seq<char>, end: int) -> Option<int>
    decreases end,
{
    if end < 2 || end > text.len() {
        None
    } else if text[end - 2] == '\n' && text[end - 1] == '}' {
        Some(end - 2)
    } else {
        closing_before(text, end - 1)
    }
}

/// The text without the closing line of the synthetic function: without the
/// last newline that a closing brace follows, that brace, and the character
/// after it, where there is one.
pub open spec fn without_closing(text: Seq<char>) -> Seq<char> {
    match closing_before(text, text.len() as int) {
        Some(at) => if at + 3 <= text.len() {
            text.take(at) + text.skip(at + 3)
        } else {
            text.take(at)
        },
        None => text,
    }
}

/// The number of characters from `from` to the end of its line.
pub open spec fn line_len(text: Seq<char>, from: int) -> nat
    decreases text.len() - from,
{
    if from < 0 || from >= text.len() || text[from] == '\n' {
        0
    } else {
        1 + line_len(text, from + 1)
    }
}

/// The line that starts at `from`, without its line ending: a newline, or a
/// carriage return and a newline.
pub open spec fn line_at(text: Seq<char>, from: int) -> Seq<char> {
    let end = from + line_len(text, from);
    if end < text.len() && from < end && text[end - 1] == '\r' {
        text.subrange(from, end - 1)
    } else {
        text.subrange(from, end)
    }
}

/// A line without one level of indentation: without its leading four
/// characters. A shorter line stays as it is.
pub open spec fn dedent_line(line: Seq<char>) -> Seq<char> {
    if line.len() >= INDENT {
        line.skip(INDENT as int)
    } else {
        line
    }
}

/// The lines from `from` on, each without one level of indentation, joined by
/// newlines. The ending of the last line is dropped.
pub open spec fn dedented_from(text: Seq<char>, from: int) -> Seq<char>
    decreases text.len() - from,
{
    if from < 0 || from >= text.len() {
        Seq::empty()
    } else {
        let next = from + line_len(text, from) + 1;
        if next >= text.len() {
            dedent_line(line_at(text, from))
        } else {
            dedent_line(line_at(text, from)) + seq!['\n'] + dedented_from(text, next)
        }
    }
}

/// The lines of a text, each without one level of indentation, joined by
/// newlines.
pub open spec fn dedented(text: Seq<char>) -> Seq<char> {
    dedented_from(text, 0)
}

/// The body that a formatted synthetic function holds: the text without the
/// opening and closing lines of the function, and every line of the rest
/// without one level of indentation.
pub open spec fn unwrapped(formatted: Seq<char>) -> Seq<char> {
    dedented(without_closing(without_opening(formatted)))
}

/// The outcome of the chain, decided from what each attempt gives: the
/// formatted file; else the body of the formatted synthetic function; else
/// the flat rendering of the tokens; else the source as it stands.
pub open spec fn chosen(
    source: Seq<char>,
    file: Option<Seq<char>>,
    function: Option<Seq<char>>,
    flat: Option<Seq<char>>,
) -> Seq<char> {
    match file {
        Some(text) => text,
        None => match function {
            Some(text) => unwrapped(text),
            None => match flat {
                Some(text) => text,
                None => source,
            },
        },
    }
}

/// The readable form of a source.
pub open spec fn pretty_text(source: Seq<char>) -> Seq<char> {
    chosen(
        source,
        formatted_file(source),
        formatted_file(wrapped(source)),
        token_rendering(source),
    )
}

/// The flat form of a source: the rendering of its tokens, or the source
/// itself where it is no token stream.
pub open spec fn flat_text(source: Seq<char>) -> Seq<char> {
    match token_rendering(source) {
        Some(text) => text,
        None => source,
    }
}

/// A text as the body of the synthetic function.
pub fn wrap_in_function(source: &str) -> (text: String)
    ensures
        text@ == wrapped(source@),
{
    let mut out = String::new();
    out.append("fn deleteme() {\n");
    out.append(source);
    out.append("\n}\n");
    assert(out@ =~= wrapped(source@));
    out
}

/// Drops the opening line of the synthetic function.
fn drop_opening(chars: &Vec<char>) -> (rest: Vec<char>)
    ensures
        rest@ == without_opening(chars@),
{
    let open = to_chars("fn deleteme() {\n");
    let mut rest: Vec<char> = Vec::new();
    if open.len() > chars.len() {
        extend_range(&mut rest, chars, 0, chars.len());
        assert(rest@ =~= chars@);
        return rest;
    }
    let mut i: usize = 0;
    while i < open.len()
        invariant
            i <= open@.len() <= chars@.len(),
            open@ == opening(),
            rest@.len() == 0,
            forall|j: int| 0 <= j < i ==> open@[j] == chars@[j],
        decreases open@.len() - i,
    {
        if open[i] != chars[i] {
            assert(!opening().is_prefix_of(chars@));
            extend_range(&mut rest, chars, 0, chars.len());
            assert(rest@ =~= chars@);
            return rest;
        }
        i += 1;
    }
    assert(chars@.subrange(0, open@.len() as int) =~= open@);
    assert(opening().is_prefix_of(chars@));
    extend_range(&mut rest, chars, open.len(), chars.len());
    assert(rest@ =~= chars@.skip(open@.len() as int));
    rest
}

/// Drops the closing line of the synthetic function.
fn drop_closing(chars: &Vec<char>) -> (rest: Vec<char>)
    ensures
        rest@ == without_closing(chars@),
{
    let n: usize = chars.len();
    let mut rest: Vec<char> = Vec::new();
    let mut end: usize = n;
    while end >= 2
        invariant
            end <= n == chars@.len(),
            rest@.len() == 0,
            closing_before(chars@, n as int) == closing_before(chars@, end as int),
        decreases end,
    {
        if chars[end - 2] == '\n' && chars[end - 1] == '}' {
            let at: usize = end - 2;
            extend_range(&mut rest, chars, 0, at);
            if n - at >= 3 {
                extend_range(&mut rest, chars, at + 3, n);
            }
            assert(rest@ =~= without_closing(chars@));
            return rest;
        }
        end -= 1;
    }
    extend_range(&mut rest, chars, 0, n);
    assert(rest@ =~= chars@);
    rest
}

/// Finds the end of the line that starts at `from`.
fn find_line_end(chars: &Vec<char>, from: usize) -> (end: usize)
    requires
        from <= chars@.len(),
    ensures
        end == from + line_len(chars@, from as int),
        from <= end <= chars@.len(),
        end < chars@.len() ==> chars@[end as int] == '\n',
{
    let mut end: usize = from;
    while end < chars.len() && chars[end] != '\n'
        invariant
            from <= end <= chars@.len(),
            from + line_len(chars@, from as int) == end + line_len(chars@, end as int),
        decreases chars@.len() - end,
    {
        end += 1;
    }
    end
}

/// Removes one level of indentation from every line.
fn dedent(chars: &Vec<char>) -> (out: String)
    ensures
        out@ == dedented(chars@),
{
    let n: usize = chars.len();
    let mut out = String::new();
    let mut from: usize = 0;
    assert(out@ + dedented_from(chars@, 0) =~= dedented(chars@));
    while from < n
        invariant
            from <= n == chars@.len(),
            dedented(chars@) == out@ + dedented_from(chars@, from as int),
        decreases n - from,
    {
        let end: usize = find_line_end(chars, from);
        let stop: usize = if end < n && from < end && chars[end - 1] == '\r' {
            end - 1
        } else {
            end
        };
        assert(chars@.subrange(from as int, stop as int) == line_at(chars@, from as int));
        let start: usize = if stop - from >= INDENT {
            from + INDENT
        } else {
            from
        };
        let ghost line = line_at(chars@, from as int);
        assert(chars@.subrange(start as int, stop as int) =~= dedent_line(line));
        let ghost before = out@;
        push_range(&mut out, chars, start, stop);
        if n - end > 1 {
            out.push('\n');
            assert(out@ + dedented_from(chars@, end as int + 1) =~= before + (dedent_line(line)
                + seq!['\n'] + dedented_from(chars@, end as int + 1)));
            from = end + 1;
        } else {
            assert(dedented_from(chars@, n as int) =~= Seq::<char>::empty());
            assert(out@ + dedented_from(chars@, n as int) =~= before + dedent_line(line));
            from = n;
        }
    }
    assert(out@ + dedented_from(chars@, n as int) =~= out@);
    out
}

/// Recovers the body from a formatted synthetic function: strips the opening
/// and closing lines of the function and removes one level of indentation
/// from every line that is left. A line of fewer than four characters, a
/// blank one among them, stays as it is.
pub fn strip_wrapper(formatted: &str) -> (body: String)
    ensures
        body@ == unwrapped(formatted@),
{
    let chars = to_chars(formatted);
    let opened = drop_opening(&chars);
    let closed = drop_closing(&opened);
    dedent(&closed)
}

/// The flat rendering of a synthesized text: its tokens one after another,
/// without layout; the text itself where it is no token stream.
pub fn flat_rendering(source: &str) -> (text: String)
    requires
        is_synthesized(source@),
    ensures
        text@ == flat_text(source@),
{
    match render_tokens(source) {
        Some(text) => text,
        None => source.to_owned(),
    }
}

/// Formats a synthesized text. The text is formatted as a complete file; if
/// it is none, as the body of a synthetic function, whose opening and closing
/// lines and indentation are then stripped; if that fails too, its tokens are
/// rendered flat.
pub fn pretty_parse(source: &str) -> (text: String)
    requires
        is_synthesized(source@),
    ensures
        text@ == pretty_text(source@),
{
    match format_file(source) {
        Some(text) => text,
        None => {
            let function = wrap_in_function(source);
            match format_file(function.as_str()) {
                Some(text) => strip_wrapper(text.as_str()),
                None => flat_rendering(source),
            }
        },
    }
}

/// The readable text of the module that declares the tables of the fourteen
/// registry languages. `sources` holds the records of the languages in
/// registry order; with any other number of them there is no module.
pub fn synthesize(sources: &Vec<SourceTranslation>, encoding: Encoding) -> (text: Option<String>)
    ensures
        sources@.len() == BANK_COUNT ==> (text matches Some(t) && t@ == pretty_text(
            module_text(sources_view(sources@), encoding),
        )),
        sources@.len() != BANK_COUNT ==> text is None,
{
    match generate_module(sources, encoding) {
        Some(module) => Some(pretty_parse(module.as_str())),
        None => None,
    }
}

/// A text from `from` on, with one level of indentation behind every
/// newline.
pub open spec fn indented_from(text: Seq<char>, from: int) -> Seq<char>
    decreases text.len() - from,
{
    if from < 0 || from >= text.len() {
        Seq::empty()
    } else if text[from] == '\n' {
        seq!['\n', ' ', ' ', ' ', ' '] + indented_from(text, from + 1)
    } else {
        seq![text[from]] + indented_from(text, from + 1)
    }
}

/// A text with one level of indentation before every line.
pub open spec fn indented(text: Seq<char>) -> Seq<char> {
    seq![' ', ' ', ' ', ' '] + indented_from(text, 0)
}

/// The length of a line does not depend on what stands before the line.
proof fn lemma_line_len_shift(text: Seq<char>, start: int, from: int)
    requires
        0 <= start <= text.len(),
        0 <= from,
    ensures
        line_len(text, start + from) == line_len(text.skip(start), from),
    decreases text.len() - start - from,
{
    let rest = text.skip(start);
    if start + from < text.len() {
        assert(rest[from] == text[start + from]);
        if text[start + from] != '\n' {
            lemma_line_len_shift(text, start, from + 1);
        }
    }
}

/// The lines from a place on do not depend on what stands before the place.
proof fn lemma_dedented_shift(text: Seq<char>, start: int, from: int)
    requires
        0 <= start <= text.len(),
        0 <= from,
    ensures
        dedented_from(text, start + from) == dedented_from(text.skip(start), from),
    decreases text.len() - start - from,
{
    let rest = text.skip(start);
    if start + from < text.len() {
        lemma_line_len_shift(text, start, from);
        lemma_line_is_plain(text, start + from);
        let len = line_len(text, start + from);
        let end = from + len;
        assert(rest.subrange(from, end) =~= text.subrange(start + from, start + end));
        if end < rest.len() && from < end {
            assert(rest[end - 1] == text[start + end - 1]);
            assert(rest.subrange(from, end - 1) =~= text.subrange(start + from, start + end - 1));
        }
        assert(line_at(rest, from) == line_at(text, start + from));
        if end + 1 < rest.len() {
            lemma_dedented_shift(text, start, end + 1);
        }
    }
}

/// Behind characters that hold no newline, the line goes on to where it
/// would end without them.
proof fn lemma_line_len_prefix(front: Seq<char>, rest: Seq<char>)
    requires
        forall|i: int| 0 <= i < front.len() ==> front[i] != '\n',
    ensures
        line_len(front + rest, 0) == front.len() + line_len(rest, 0),
    decreases front.len(),
{
    let text = front + rest;
    if front.len() == 0 {
        assert(text =~= rest);
    } else {
        assert(text[0] == front[0]);
        lemma_line_len_shift(text, 1, 0);
        assert(text.skip(1) =~= front.skip(1) + rest);
        lemma_line_len_prefix(front.skip(1), rest);
    }
}

/// An indented text starts with the characters of its first line.
proof fn lemma_indented_line(text: Seq<char>, from: int)
    requires
        0 <= from <= text.len(),
    ensures
        indented_from(text, from) == text.subrange(from, from + line_len(text, from))
            + indented_from(text, from + line_len(text, from)),
    decreases text.len() - from,
{
    if from < text.len() && text[from] != '\n' {
        lemma_indented_line(text, from + 1);
        lemma_line_is_plain(text, from + 1);
        let len = line_len(text, from + 1);
        assert(seq![text[from]] + text.subrange(from + 1, from + 1 + len) =~= text.subrange(
            from,
            from + 1 + len,
        ));
        assert(indented_from(text, from) =~= text.subrange(from, from + 1 + len) + indented_from(
            text,
            from + 1 + len,
        ));
    } else {
        assert(text.subrange(from, from) =~= Seq::<char>::empty());
        assert(indented_from(text, from) =~= Seq::<char>::empty() + indented_from(text, from));
    }
}

/// A text of one line, without a newline, is dedented as that line.
proof fn lemma_dedented_last_line(line: Seq<char>)
    requires
        forall|i: int| 0 <= i < line.len() ==> line[i] != '\n',
    ensures
        dedented_from(line, 0) == dedent_line(line),
{
    if line.len() > 0 {
        lemma_line_len_prefix(line, Seq::<char>::empty());
        assert(line + Seq::<char>::empty() =~= line);
        assert(line_len(Seq::<char>::empty(), 0) == 0);
        assert(line.subrange(0, line.len() as int) =~= line);
    }
}

/// A text of a line, a newline and more is dedented as that line, a newline,
/// and what the rest is dedented as.
proof fn lemma_dedented_first_line(line: Seq<char>, rest: Seq<char>)
    requires
        forall|i: int| 0 <= i < line.len() ==> line[i] != '\n',
        line.len() == 0 || line.last() != '\r',
        rest.len() >= 1,
    ensures
        dedented_from(line + seq!['\n'] + rest, 0) == dedent_line(line) + seq!['\n']
            + dedented_from(rest, 0),
{
    let behind = seq!['\n'] + rest;
    let whole = line + seq!['\n'] + rest;
    assert(whole =~= line + behind);
    lemma_line_len_prefix(line, behind);
    assert(behind[0] == '\n');
    assert(line_len(behind, 0) == 0);
    let end = line.len() as int;
    assert(line_len(whole, 0) == end);
    assert(whole.subrange(0, end) =~= line);
    if end > 0 {
        assert(whole[end - 1] == line.last());
    }
    assert(line_at(whole, 0) == line);
    lemma_dedented_shift(whole, end + 1, 0);
    assert(whole.skip(end + 1) =~= rest);
}

/// Removing one level of indentation from an indented text gives the text
/// back, from any place on.
proof fn lemma_dedented_indented_from(text: Seq<char>, from: int)
    requires
        0 <= from <= text.len(),
        !text.contains('\r'),
    ensures
        dedented_from(seq![' ', ' ', ' ', ' '] + indented_from(text, from), 0) == text.skip(from),
    decreases text.len() - from,
{
    let margin = seq![' ', ' ', ' ', ' '];
    let len = line_len(text, from) as int;
    let end = from + len;
    let line = text.subrange(from, end);
    let first = margin + line;
    lemma_indented_line(text, from);
    lemma_line_is_plain(text, from);
    assert forall|i: int| 0 <= i < first.len() implies first[i] != '\n' by {
        if i >= 4 {
            assert(first[i] == text[from + i - 4]);
        }
    }
    assert(dedent_line(first) =~= line);
    if end >= text.len() {
        assert(indented_from(text, end) =~= Seq::<char>::empty());
        assert(margin + indented_from(text, from) =~= first);
        lemma_dedented_last_line(first);
        assert(line =~= text.skip(from));
    } else {
        let next = margin + indented_from(text, end + 1);
        assert(indented_from(text, end) =~= seq!['\n'] + next);
        assert(margin + indented_from(text, from) =~= first + seq!['\n'] + next);
        if len > 0 {
            assert(first.last() == text[end - 1]);
            assert(text.contains(text[end - 1]));
        }
        lemma_dedented_first_line(first, next);
        lemma_dedented_indented_from(text, end + 1);
        assert(line + seq!['\n'] + text.skip(end + 1) =~= text.skip(from));
    }
}

/// A line holds no newline, and it ends at the end of the text or before a
/// newline.
proof fn lemma_line_is_plain(text: Seq<char>, from: int)
    requires
        0 <= from <= text.len(),
    ensures
        from + line_len(text, from) <= text.len(),
        forall|i: int| from <= i < from + line_len(text, from) ==> text[i] != '\n',
        from + line_len(text, from) < text.len() ==> text[from + line_len(text, from)] == '\n',
    decreases text.len() - from,
{
    if from < text.len() && text[from] != '\n' {
        lemma_line_is_plain(text, from + 1);
    }
}

/// Stripping recovers what the synthetic function holds: a text without
/// carriage return that stands indented between the opening and the closing
/// lines of the function comes back as it was.
pub proof fn lemma_unwrapped_body(body: Seq<char>)
    requires
        !body.contains('\r'),
    ensures
        unwrapped(opening() + indented(body) + closing()) == body,
{
    reveal_strlit("fn deleteme() {\n");
    reveal_strlit("\n}\n");
    let inner = indented(body);
    let formatted = opening() + inner + closing();
    assert(formatted.subrange(0, opening().len() as int) =~= opening());
    assert(opening().is_prefix_of(formatted));
    let opened = without_opening(formatted);
    assert(opened =~= inner + closing());
    let n = opened.len() as int;
    assert(opened[n - 1] == '\n');
    assert(opened[n - 2] == '}');
    assert(opened[n - 3] == '\n');
    assert(closing_before(opened, n) == closing_before(opened, n - 1));
    assert(closing_before(opened, n - 1) == Some(n - 3));
    assert(without_closing(opened) =~= inner);
    lemma_dedented_indented_from(body, 0);
    assert(body.skip(0) =~= body);
}

} // verus!
