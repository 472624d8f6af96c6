//! Documentation comments of the emitted code.
use vstd::prelude::*;
use vstd::string::*;
use crate::ast::{opt_url, Doc};
use crate::codegen::config::Customization;
use crate::text::{
    cat2, cat3, cat4, cat5, chars_of, join, lemma_texts_push,
    lines_of, no_lines, push_line, rows, spaces, spec_join, spec_lines, spec_spaces, spec_split,
    spec_strip_leading, spec_strip_trailing, split_on, starts_with, str_eq, string_of, strip_leading,
    strip_trailing, texts,
};

verus! {

/// The media type of XHTML documents.
pub const XHTML_MIME_TYPE: &'static str = "application/xhtml+xml";

/// One line read while code examples are taken out: the lines kept so far, and whether
/// an example is open. A fence opens an example where it is bare or names Python, any
/// fence closes one, and neither the fences nor what stands between them is kept.
pub open spec fn strip_step(acc: (Seq<Seq<char>>, bool), line: Seq<char>) -> (Seq<Seq<char>>, bool) {
    if !acc.1 && ("```python"@.is_prefix_of(line) || line == "```"@) {
        (acc.0, true)
    } else if "```"@.is_prefix_of(line) {
        (acc.0, false)
    } else if acc.1 {
        acc
    } else {
        (acc.0.push(line), false)
    }
}

/// All the lines read while code examples are taken out.
pub open spec fn spec_strip_fold(lines: Seq<Seq<char>>) -> (Seq<Seq<char>>, bool)
    decreases lines.len(),
{
    if lines.len() == 0 {
        (Seq::empty(), false)
    } else {
        strip_step(spec_strip_fold(lines.drop_last()), lines.last())
    }
}

/// A text without its code examples, its other lines joined by line feeds.
pub open spec fn spec_strip_code_examples(input: Seq<char>) -> Seq<char> {
    spec_join(spec_strip_fold(spec_lines(input)).0, "\n"@)
}

/// Takes the code examples out of a Markdown text.
pub fn strip_code_examples(input: String) -> (r: String)
    ensures
        r@ == spec_strip_code_examples(input@),
{
    let lines = lines_of(input.as_str());
    let mut kept: Vec<String> = no_lines();
    let mut in_example = false;
    let mut i: usize = 0;
    while i < lines.len()
        invariant
            i <= lines.len(),
            (texts(kept@), in_example) == spec_strip_fold(texts(lines@).take(i as int)),
        decreases lines.len() - i,
    {
        proof {
            let next = texts(lines@).take(i + 1);
            assert(next.drop_last() =~= texts(lines@).take(i as int));
            assert(next.last() == lines@[i as int]@);
        }
        let line = lines[i].as_str();
        if !in_example && (starts_with(line, "```python") || str_eq(line, "```")) {
            in_example = true;
        } else if starts_with(line, "```") {
            in_example = false;
        } else if !in_example {
            push_line(&mut kept, String::from_str(line));
        }
        i = i + 1;
    }
    assert(texts(lines@).take(lines@.len() as int) =~= texts(lines@));
    join(&kept, "\n")
}

/// The namespace of documentation that is HTML.
pub open spec fn xhtml_namespace() -> Seq<char> {
    "http://www.w3.org/1999/xhtml"@
}

/// Documentation as plain lines joined by line feeds. Documentation in the namespace of
/// XHTML is taken in the Markdown form that the customization has for it, without its
/// code examples where the customization says so; where the customization has none,
/// and in any other namespace, it is taken as it is written.
pub open spec fn spec_format_doc<C: Customization>(doc: Doc, config: &C) -> Seq<char> {
    if opt_url(doc.xmlns) == Some(xhtml_namespace()) {
        match config.spec_html_to_markdown(doc.content@) {
            Some(markdown) => {
                let text = if config.spec_strip_code_examples() {
                    spec_strip_code_examples(markdown)
                } else {
                    markdown
                };
                spec_join(spec_lines(text), "\n"@)
            },
            None => spec_join(spec_lines(doc.content@), "\n"@),
        }
    } else {
        spec_join(spec_lines(doc.content@), "\n"@)
    }
}

/// Whether documentation is in the namespace of XHTML.
pub fn is_xhtml(doc: &Doc) -> (r: bool)
    ensures
        r == (opt_url(doc.xmlns) == Some(xhtml_namespace())),
{
    match &doc.xmlns {
        Some(u) => str_eq(u.as_str(), "http://www.w3.org/1999/xhtml"),
        None => false,
    }
}

/// Formats documentation as plain text.
pub fn format_doc<C: Customization>(input: &Doc, config: &C) -> (r: String)
    ensures
        r@ == spec_format_doc(*input, config),
{
    let converted = if is_xhtml(input) {
        config.html_to_markdown(input.content.as_str())
    } else {
        None
    };
    match converted {
        Some(markdown) => {
            let mut text = markdown;
            if config.strip_code_examples() {
                text = strip_code_examples(text);
            }
            let lines = lines_of(text.as_str());
            join(&lines, "\n")
        },
        None => {
            let lines = lines_of(input.content.as_str());
            join(&lines, "\n")
        },
    }
}

/// Each line after `4 * indent` spaces.
pub open spec fn spec_indent(indent: nat, lines: Seq<Seq<char>>) -> Seq<Seq<char>> {
    lines.map_values(|l: Seq<char>| spec_spaces(4 * indent) + l)
}

/// Puts `4 * level` spaces before each line.
pub fn indent(level: usize, lines: Vec<String>) -> (r: Vec<String>)
    requires
        4 * level <= usize::MAX,
    ensures
        texts(r@) == spec_indent(level as nat, texts(lines@)),
{
    let pad = spaces(4 * level);
    let mut out: Vec<String> = no_lines();
    let mut i: usize = 0;
    while i < lines.len()
        invariant
            i <= lines.len(),
            pad@ == spec_spaces(4 * (level as nat)),
            texts(out@) =~= spec_indent(level as nat, texts(lines@)).take(i as int),
        decreases lines.len() - i,
    {
        let line = cat2(pad.as_str(), lines[i].as_str());
        proof {
            lemma_texts_push(out@, line);
        }
        out.push(line);
        i = i + 1;
    }
    assert(spec_indent(level as nat, texts(lines@)).take(lines@.len() as int) =~= spec_indent(
        level as nat,
        texts(lines@),
    ));
    out
}

/// One line of documentation as a comment line.
pub open spec fn spec_doc_line(line: Seq<char>) -> Seq<char> {
    if line.len() == 0 {
        "///"@ + ""@ + line + "\n"@
    } else {
        "///"@ + " "@ + line + "\n"@
    }
}

/// Each line of documentation as a comment line.
pub open spec fn spec_doc_lines(lines: Seq<Seq<char>>) -> Seq<Seq<char>> {
    lines.map_values(|l: Seq<char>| spec_doc_line(l))
}

/// The heading of a documentation comment: the title and an empty comment line, where
/// there is a title.
pub open spec fn spec_doc_head(title: Option<Seq<char>>) -> Seq<Seq<char>> {
    match title {
        Some(t) => Seq::<Seq<char>>::empty().push("/// # "@ + t + "\n"@).push("///\n"@),
        None => Seq::<Seq<char>>::empty(),
    }
}

/// The text of a documentation comment: the formatted documentation, in the form the
/// customization gives it where it gives one.
pub open spec fn spec_doc_text<C: Customization>(doc: Doc, config: &C) -> Seq<char> {
    let formatted = spec_format_doc(doc, config);
    match config.spec_reformat_docstring(formatted) {
        Some(t) => t,
        None => formatted,
    }
}

/// The documentation comment for a `Doc`: the heading, then one comment line for each
/// line of the text, all indented.
#[verifier::opaque]
pub open spec fn spec_generate_doc<C: Customization>(doc: Doc, indent: nat, config: &C) -> Seq<
    Seq<char>,
> {
    spec_indent(
        indent,
        spec_doc_head(crate::text::opt_text(doc.title)) + spec_doc_lines(
            spec_lines(spec_doc_text(doc, config)),
        ),
    )
}

/// Emits the documentation comment for a `Doc`.
pub fn generate_doc<C: Customization>(input: &Doc, indent: usize, config: &C) -> (r: Vec<String>)
    requires
        4 * indent <= usize::MAX,
    ensures
        texts(r@) == spec_generate_doc(*input, indent as nat, config),
{
    reveal(spec_generate_doc);
    let mut lines: Vec<String> = no_lines();
    match &input.title {
        Some(title) => {
            push_line(&mut lines, cat3("/// # ", title.as_str(), "\n"));
            push_line(&mut lines, String::from_str("///\n"));
        },
        None => {},
    }
    let ghost head = texts(lines@);
    let mut text = format_doc(input, config);
    match config.reformat_docstring(text.as_str()) {
        Some(t) => {
            text = t;
        },
        None => {},
    }
    let body = lines_of(text.as_str());
    let mut i: usize = 0;
    assert(head + spec_doc_lines(texts(body@)).take(0) =~= head);
    while i < body.len()
        invariant
            i <= body.len(),
            texts(lines@) == head + spec_doc_lines(texts(body@)).take(i as int),
        decreases body.len() - i,
    {
        let line = body[i].as_str();
        let doc_line = if line.is_empty() {
            cat4("///", "", line, "\n")
        } else {
            cat4("///", " ", line, "\n")
        };
        assert(doc_line@ == spec_doc_lines(texts(body@))[i as int]);
        push_line(&mut lines, doc_line);
        i = i + 1;
        assert(texts(lines@) =~= head + spec_doc_lines(texts(body@)).take(i as int));
    }
    assert(spec_doc_lines(texts(body@)).take(body@.len() as int) =~= spec_doc_lines(
        texts(body@),
    ));
    self::indent(indent, lines)
}

/// The documentation comments for a list of `Doc`s, one after the other.
pub open spec fn spec_generate_docs<C: Customization>(docs: Seq<Doc>, indent: nat, config: &C) -> Seq<
    Seq<char>,
>
    decreases docs.len(),
{
    if docs.len() == 0 {
        Seq::empty()
    } else {
        spec_generate_docs(docs.drop_last(), indent, config) + spec_generate_doc(
            docs.last(),
            indent,
            config,
        )
    }
}

/// Emits the documentation comments for a list of `Doc`s after the lines given.
pub fn push_docs<C: Customization>(lines: &mut Vec<String>, docs: &Vec<Doc>, indent: usize, config: &C)
    requires
        4 * indent <= usize::MAX,
    ensures
        texts(final(lines)@) == texts(old(lines)@) + spec_generate_docs(
            docs@,
            indent as nat,
            config,
        ),
{
    let mut i: usize = 0;
    assert(texts(lines@) + spec_generate_docs(docs@.take(0), indent as nat, config) =~= texts(
        lines@,
    ));
    while i < docs.len()
        invariant
            i <= docs.len(),
            4 * indent <= usize::MAX,
            texts(lines@) == texts(old(lines)@) + spec_generate_docs(
                docs@.take(i as int),
                indent as nat,
                config,
            ),
        decreases docs.len() - i,
    {
        proof {
            let next = docs@.take(i + 1);
            assert(next.drop_last() =~= docs@.take(i as int));
            assert(next.last() == docs@[i as int]);
        }
        let more = generate_doc(&docs[i], indent, config);
        crate::text::extend_lines(lines, more);
        i = i + 1;
        assert(texts(lines@) =~= texts(old(lines)@) + spec_generate_docs(
            docs@.take(i as int),
            indent as nat,
            config,
        ));
    }
    assert(docs@.take(docs@.len() as int) =~= docs@);
}

/// One line of an argument's documentation after the first.
pub open spec fn spec_arg_doc_line(part: Seq<char>) -> Seq<char> {
    if part.len() == 0 {
        "    ///\n"@
    } else {
        "    ///     "@ + spec_strip_trailing(part, ' ') + "\n"@
    }
}

/// Each further line of an argument's documentation.
pub open spec fn spec_arg_doc_lines(parts: Seq<Seq<char>>) -> Seq<Seq<char>> {
    parts.map_values(|p: Seq<char>| spec_arg_doc_line(p))
}

/// The documentation of an argument, as an item of a list: its name, and after a colon the
/// documentation where there is some, its further lines indented under the first.
#[verifier::opaque]
pub open spec fn spec_format_arg_doc<C: Customization>(name: Seq<char>, doc: Option<Doc>, config: &C) -> Seq<
    Seq<char>,
> {
    match doc {
        Some(d) => {
            let parts = spec_split(spec_strip_leading(spec_format_doc(d, config), '\n'), '\n');
            Seq::<Seq<char>>::empty().push(
                "    /// * `"@ + name + "`: "@ + spec_strip_trailing(parts[0], ' ') + "\n"@,
            ) + spec_arg_doc_lines(parts.skip(1))
        },
        None => Seq::<Seq<char>>::empty().push("    /// * `"@ + name + "`\n"@),
    }
}

/// Emits the documentation of an argument.
pub fn format_arg_doc<C: Customization>(name: &str, doc: Option<&Doc>, config: &C) -> (r: Vec<String>)
    ensures
        texts(r@) == spec_format_arg_doc(
            name@,
            match doc {
                Some(d) => Some(*d),
                None => None,
            },
            config,
        ),
{
    reveal(spec_format_arg_doc);
    let mut lines: Vec<String> = no_lines();
    match doc {
        Some(d) => {
            let text = format_doc(d, config);
            let chars = chars_of(text.as_str());
            let trimmed = strip_leading(&chars, '\n');
            let parts = split_on(&trimmed, '\n');
            let first = strip_trailing(&parts[0], ' ');
            let first_text = string_of(&first);
            assert(rows(parts@)[0] == parts@[0]@);
            push_line(&mut lines, cat5("    /// * `", name, "`: ", first_text.as_str(), "\n"));
            let ghost head = texts(lines@);
            let ghost rest = rows(parts@).skip(1);
            let mut i: usize = 1;
            assert(head + spec_arg_doc_lines(rest).take(0) =~= head);
            while i < parts.len()
                invariant
                    1 <= i <= parts.len(),
                    rest == rows(parts@).skip(1),
                    texts(lines@) == head + spec_arg_doc_lines(rest).take(i - 1),
                decreases parts.len() - i,
            {
                let part = &parts[i];
                assert(rest[i - 1] == part@);
                let line = if part.len() == 0 {
                    String::from_str("    ///\n")
                } else {
                    let cut = strip_trailing(part, ' ');
                    let cut_text = string_of(&cut);
                    cat3("    ///     ", cut_text.as_str(), "\n")
                };
                assert(line@ == spec_arg_doc_lines(rest)[i - 1]);
                push_line(&mut lines, line);
                i = i + 1;
                assert(texts(lines@) =~= head + spec_arg_doc_lines(rest).take(i - 1));
            }
            assert(spec_arg_doc_lines(rest).take(rest.len() as int) =~= spec_arg_doc_lines(rest));
        },
        None => {
            push_line(&mut lines, cat3("    /// * `", name, "`\n"));
        },
    }
    lines
}

} // verus!
