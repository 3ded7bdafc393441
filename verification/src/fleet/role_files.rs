//! Role files, and the TOML literals they are made of.

use vstd::prelude::*;
use crate::text::{
    borrow_option, contains, occurs_at, str_option, text_option, trim, trim_end, trim_start,
    trimmed,
};
use super::team::{LEAD_INSTRUCTIONS, LEAD_ROLE, WORKER_INSTRUCTIONS, WORKER_ROLE};
use super::toml_reader::{
    bare_key, ends_line, has_key, lemma_blank_line, lemma_comment, lemma_entry,
    lemma_literal_is_quoted, lemma_nothing, read_document, read_rest, read_string, reads_back,
    starts_with_quotes,
};

verus! {

/// The literal that `toml_edit` displays for a string value.
pub uninterp spec fn toml_literal(raw: Seq<char>) -> Seq<char>;

/// Text without control characters, but for line ends where `lines` allows them.
pub open spec fn printable(raw: Seq<char>, lines: bool) -> bool {
    forall|i: int|
        0 <= i < raw.len() ==> (' ' <= #[trigger] raw[i] && raw[i] != '\u{7f}') || (lines && raw[i]
            == '\n')
}

/// The literal of a text that needs no escapes: in double quotes; in single quotes
/// where it holds double quotes or backslashes; in triple quotes where it has
/// several lines. What is left open is text with both kinds of quotes on one line,
/// with a backslash or three double quotes in a row on several, or with control
/// characters.
pub open spec fn simple_literal(raw: Seq<char>) -> Option<Seq<char>> {
    if printable(raw, false) {
        if !raw.contains('"') && !raw.contains('\\') {
            Some("\""@ + raw + "\""@)
        } else if !raw.contains('\'') {
            Some("'"@ + raw + "'"@)
        } else {
            None
        }
    } else if printable(raw, true) && !raw.contains('\\') && !contains(raw, "\"\"\""@) {
        Some("\"\"\"\n"@ + raw + "\"\"\""@)
    } else {
        None
    }
}

/// `toml_edit::value` on a string, displayed. The literal depends on the string
/// alone, reads back as the string, and is the simple one where the string has one.
/// Which escapes are written for any other string is left unsaid.
#[verifier::external_body]
fn displayed_value(raw: &str) -> (literal: String)
    ensures
        literal@ == toml_literal(raw@),
        reads_back(literal@, raw@),
        simple_literal(raw@) matches Some(known) ==> literal@ == known,
{
    toml_edit::value(raw).to_string()
}

/// A string as a TOML literal.
pub open spec fn toml_text(raw: Seq<char>) -> Seq<char> {
    trim(toml_literal(raw))
}

/// Renders a TOML string literal, so an endpoint or model name containing quotes
/// cannot break out of the generated file: whatever the string, the literal ends
/// where it ends and reads back as the string.
pub fn toml_string(raw: &str) -> (literal: String)
    ensures
        literal@ == toml_text(raw@),
        reads_back(literal@, raw@),
        simple_literal(raw@) matches Some(known) ==> literal@ == known,
{
    let displayed = displayed_value(raw);
    proof {
        lemma_literal_is_quoted(displayed@, raw@);
        assert(trim_start(displayed@) == displayed@);
        assert(trim_end(displayed@) == displayed@);
    }
    trimmed(displayed.as_str()).to_owned()
}

/// The quote a name on one line is put in stands nowhere in the name, so nothing
/// in the name can end the literal early.
pub proof fn a_name_cannot_break_out(raw: Seq<char>)
    requires
        printable(raw, false),
        !(raw.contains('\'') && (raw.contains('"') || raw.contains('\\'))),
    ensures
        ({
            &&& simple_literal(raw) matches Some(literal)
            &&& literal.len() == raw.len() + 2
            &&& literal.subrange(1, literal.len() - 1) == raw
            &&& literal[0] == literal.last()
            &&& !raw.contains(literal[0])
            &&& literal[0] == '"' ==> !raw.contains('\\')
        }),
{
    reveal_strlit("\"");
    reveal_strlit("'");
    let literal = simple_literal(raw)->0;
    assert(literal.subrange(1, literal.len() - 1) =~= raw);
}

proof fn lemma_one_line(raw: Seq<char>, quote: char, following: Seq<char>)
    requires
        printable(raw, false),
        !raw.contains(quote),
        quote == '"' ==> !raw.contains('\\'),
    ensures
        read_rest(raw + seq![quote] + following, quote, false) == Some((raw, following)),
    decreases raw.len(),
{
    let text = raw + seq![quote] + following;
    if raw.len() == 0 {
        assert(text.skip(1) =~= following);
        assert(text.take(0) =~= raw);
        assert(text[0] == quote);
    } else {
        let rest = raw.skip(1);
        assert(raw.contains(raw[0]));
        assert forall|i: int| 0 <= i < rest.len() implies #[trigger] rest[i] == raw[i + 1]
            && raw.contains(rest[i]) by {}
        lemma_one_line(rest, quote, following);
        assert(text.skip(1) =~= rest + seq![quote] + following);
        assert(seq![text[0]] + rest =~= raw);
    }
}

proof fn lemma_several_lines(raw: Seq<char>, following: Seq<char>)
    requires
        printable(raw, true),
        !raw.contains('\\'),
        !contains(raw, "\"\"\""@),
        ends_line(following),
    ensures
        read_rest(raw + "\"\"\""@ + following, '"', true) == Some((raw, following)),
    decreases raw.len(),
{
    reveal_strlit("\"\"\"");
    let text = raw + "\"\"\""@ + following;
    let size = raw.len() as int;
    assert(text.skip(size + 3) =~= following);
    assert(text.take(size) =~= raw);
    if starts_with_quotes(text, '"', 3) {
        if size >= 3 {
            assert(raw[0] == text[0] && raw[1] == text[1] && raw[2] == text[2]);
            assert(raw.subrange(0, 3) =~= "\"\"\""@);
            assert(occurs_at(raw, "\"\"\""@, 0));
        }
        if following.len() > 0 {
            assert(text[size + 3] == '\n');
        }
        assert forall|i: int| 0 <= i < size + 3 implies #[trigger] text[i] == '"' by {
            if i < 3 {
                assert(text[i] == '"');
            }
        }
    } else {
        assert(size > 0) by {
            if size == 0 {
                assert forall|i: int| 0 <= i < 3 implies #[trigger] text[i] == '"' by {}
            }
        }
        let rest = raw.skip(1);
        assert(raw.contains(raw[0]));
        assert forall|i: int| 0 <= i < rest.len() implies #[trigger] rest[i] == raw[i + 1]
            && raw.contains(rest[i]) by {}
        if contains(rest, "\"\"\""@) {
            let i = choose|i: int| occurs_at(rest, "\"\"\""@, i);
            assert(raw.subrange(i + 1, i + 4) =~= rest.subrange(i, i + 3));
            assert(occurs_at(raw, "\"\"\""@, i + 1));
        }
        lemma_several_lines(rest, following);
        assert(text.skip(1) =~= rest + "\"\"\""@ + following);
        assert(seq![text[0]] + rest =~= raw);
        assert(!starts_with_quotes(text, '"', 4));
        assert(!starts_with_quotes(text, '"', 5));
    }
}

proof fn lemma_reads_one_line(raw: Seq<char>, quote: char, following: Seq<char>)
    requires
        printable(raw, false),
        quote == '"' || quote == '\'',
        !raw.contains(quote),
        quote == '"' ==> !raw.contains('\\'),
        ends_line(following),
    ensures
        read_string(seq![quote] + raw + seq![quote] + following) == Some((raw, following)),
{
    let text = seq![quote] + raw + seq![quote] + following;
    lemma_one_line(raw, quote, following);
    assert(text.skip(1) =~= raw + seq![quote] + following);
    assert(text[0] == quote);
    if starts_with_quotes(text, quote, 3) {
        assert(text[1] == quote && text[2] == quote);
        if raw.len() > 0 {
            assert(raw[0] == text[1]);
            assert(raw.contains(quote));
        } else {
            assert(text[2] == following[0]);
        }
    }
}

proof fn lemma_reads_several_lines(raw: Seq<char>, following: Seq<char>)
    requires
        printable(raw, true),
        !raw.contains('\\'),
        !contains(raw, "\"\"\""@),
        ends_line(following),
    ensures
        read_string("\"\"\"\n"@ + raw + "\"\"\""@ + following) == Some((raw, following)),
{
    let text = "\"\"\"\n"@ + raw + "\"\"\""@ + following;
    lemma_several_lines(raw, following);
    reveal_strlit("\"\"\"\n");
    assert(starts_with_quotes(text, '"', 3));
    assert(text[0] == '"');
    assert(text.skip(3)[0] == '\n');
    assert(text.skip(3).skip(1) =~= raw + "\"\"\""@ + following);
}

/// A simple literal reads back as the text it was made of.
pub proof fn a_simple_literal_reads_back(raw: Seq<char>)
    requires
        simple_literal(raw) is Some,
    ensures
        reads_back(simple_literal(raw)->0, raw),
{
    let literal = simple_literal(raw)->0;
    assert forall|following: Seq<char>| ends_line(following) implies #[trigger] read_string(
        literal + following,
    ) == Some((raw, following)) by {
        if printable(raw, false) {
            if !raw.contains('"') && !raw.contains('\\') {
                reveal_strlit("\"");
                assert("\""@ =~= seq!['"']);
                lemma_reads_one_line(raw, '"', following);
            } else {
                reveal_strlit("'");
                assert("'"@ =~= seq!['\'']);
                lemma_reads_one_line(raw, '\'', following);
            }
        } else {
            lemma_reads_several_lines(raw, following);
        }
    }
}

/// A key of a role file, where it has a value.
pub open spec fn role_line(key: Seq<char>, literal: Option<Seq<char>>) -> Seq<char> {
    match literal {
        Some(literal) => key + " = "@ + literal + "\n"@,
        None => Seq::empty(),
    }
}

/// A role file of the given literals. A role that names no model or provider
/// inherits its parent's, which is how leads end up on the session's endpoint while
/// workers move to a local one.
pub open spec fn role_file_of(
    name: Seq<char>,
    instructions: Seq<char>,
    model: Option<Seq<char>>,
    model_provider: Option<Seq<char>>,
) -> Seq<char> {
    "# Generated by `codex fleet team`. Edit freely.\n"@ + role_line("name"@, Some(name))
        + role_line("model"@, model) + role_line("model_provider"@, model_provider) + "\n"@
        + role_line("developer_instructions"@, Some(instructions))
}

/// A key of a role file with its value, where it has one.
pub open spec fn role_entry(key: Seq<char>, value: Option<Seq<char>>) -> Seq<
    (Seq<char>, Seq<char>),
> {
    match value {
        Some(value) => seq![(key, value)],
        None => Seq::empty(),
    }
}

/// What a role file says: its keys and their values.
pub open spec fn role_entries(
    name: Seq<char>,
    instructions: Seq<char>,
    model: Option<Seq<char>>,
    model_provider: Option<Seq<char>>,
) -> Seq<(Seq<char>, Seq<char>)> {
    role_entry("name"@, Some(name)) + role_entry("model"@, model) + role_entry(
        "model_provider"@,
        model_provider,
    ) + role_entry("developer_instructions"@, Some(instructions))
}

/// The literal reads as the value, and is absent where the value is.
pub open spec fn option_reads_back(literal: Option<Seq<char>>, raw: Option<Seq<char>>) -> bool {
    match (literal, raw) {
        (Some(literal), Some(raw)) => reads_back(literal, raw),
        (None, None) => true,
        _ => false,
    }
}

proof fn lemma_role_line(
    key: Seq<char>,
    literal: Option<Seq<char>>,
    value: Option<Seq<char>>,
    following: Seq<char>,
    more: Seq<(Seq<char>, Seq<char>)>,
)
    requires
        bare_key(key),
        option_reads_back(literal, value),
        read_document(following) == Some(more),
        !has_key(more, key),
    ensures
        read_document(role_line(key, literal) + following) == Some(role_entry(key, value) + more),
{
    match (literal, value) {
        (Some(literal), Some(value)) => {
            lemma_entry(key, literal, value, following, more);
            assert(role_line(key, Some(literal)) + following =~= key + " = "@ + literal + "\n"@
                + following);
        },
        _ => {
            assert(role_line(key, literal) + following =~= following);
            assert(role_entry(key, value) + more =~= more);
        },
    }
}

/// The keys of a role file are bare keys, no two of them the same.
proof fn lemma_role_keys()
    ensures
        bare_key("name"@),
        bare_key("model"@),
        bare_key("model_provider"@),
        bare_key("developer_instructions"@),
        "name"@.len() == 4,
        "model"@.len() == 5,
        "model_provider"@.len() == 14,
        "developer_instructions"@.len() == 22,
{
    reveal_strlit("name");
    reveal_strlit("model");
    reveal_strlit("model_provider");
    reveal_strlit("developer_instructions");
}

proof fn lemma_regroup(
    a: Seq<char>,
    b: Seq<char>,
    c: Seq<char>,
    d: Seq<char>,
    e: Seq<char>,
    f: Seq<char>,
)
    ensures
        a + b + c + d + e + f == a + (b + (c + (d + (e + f)))),
{
    assert(a + b + c + d + e + f =~= a + (b + (c + (d + (e + f)))));
}

proof fn lemma_regroup_entries(
    a: Seq<(Seq<char>, Seq<char>)>,
    b: Seq<(Seq<char>, Seq<char>)>,
    c: Seq<(Seq<char>, Seq<char>)>,
    d: Seq<(Seq<char>, Seq<char>)>,
)
    ensures
        a + b + c + d == a + (b + (c + d)),
{
    assert(a + b + c + d =~= a + (b + (c + d)));
}

/// A role file reads back: it holds exactly the keys that were given a value, each
/// with the value that its literal reads as.
pub proof fn a_role_file_reads_back(
    name_literal: Seq<char>,
    name: Seq<char>,
    instructions_literal: Seq<char>,
    instructions: Seq<char>,
    model_literal: Option<Seq<char>>,
    model: Option<Seq<char>>,
    provider_literal: Option<Seq<char>>,
    model_provider: Option<Seq<char>>,
)
    requires
        reads_back(name_literal, name),
        reads_back(instructions_literal, instructions),
        option_reads_back(model_literal, model),
        option_reads_back(provider_literal, model_provider),
    ensures
        read_document(
            role_file_of(name_literal, instructions_literal, model_literal, provider_literal),
        ) == Some(role_entries(name, instructions, model, model_provider)),
{
    let header = "# Generated by `codex fleet team`. Edit freely.\n"@;
    lemma_role_keys();
    lemma_nothing();
    let nothing = Seq::<char>::empty();
    let no_entries = Seq::<(Seq<char>, Seq<char>)>::empty();
    let last = role_line("developer_instructions"@, Some(instructions_literal));
    let last_entry = role_entry("developer_instructions"@, Some(instructions));
    lemma_role_line(
        "developer_instructions"@,
        Some(instructions_literal),
        Some(instructions),
        nothing,
        no_entries,
    );
    assert(last + nothing =~= last);
    assert(last_entry + no_entries =~= last_entry);
    lemma_blank_line(last);
    let third = "\n"@ + last;
    lemma_role_line("model_provider"@, provider_literal, model_provider, third, last_entry);
    let second = role_line("model_provider"@, provider_literal) + third;
    let second_entries = role_entry("model_provider"@, model_provider) + last_entry;
    lemma_role_line("model"@, model_literal, model, second, second_entries);
    let first = role_line("model"@, model_literal) + second;
    let first_entries = role_entry("model"@, model) + second_entries;
    lemma_role_line("name"@, Some(name_literal), Some(name), first, first_entries);
    let body = role_line("name"@, Some(name_literal)) + first;
    assert(read_document(header + body) == read_document(body)) by {
        reveal_strlit("# Generated by `codex fleet team`. Edit freely.\n");
        lemma_comment(header, body);
    }
    lemma_regroup(
        header,
        role_line("name"@, Some(name_literal)),
        role_line("model"@, model_literal),
        role_line("model_provider"@, provider_literal),
        "\n"@,
        last,
    );
    lemma_regroup_entries(
        role_entry("name"@, Some(name)),
        role_entry("model"@, model),
        role_entry("model_provider"@, model_provider),
        last_entry,
    );
}

/// A string that may be absent, as a TOML literal.
pub open spec fn toml_option(raw: Option<Seq<char>>) -> Option<Seq<char>> {
    match raw {
        Some(raw) => Some(toml_text(raw)),
        None => None,
    }
}

/// The contents of a role file.
pub open spec fn role_file_text(
    name: Seq<char>,
    instructions: Seq<char>,
    model: Option<Seq<char>>,
    model_provider: Option<Seq<char>>,
) -> Seq<char> {
    role_file_of(
        toml_text(name),
        toml_text(instructions),
        toml_option(model),
        toml_option(model_provider),
    )
}

fn write_role_line(contents: &mut String, key: &str, literal: Option<&str>)
    ensures
        final(contents)@ == old(contents)@ + role_line(key@, str_option(literal)),
{
    if let Some(literal) = literal {
        contents.append(key);
        contents.append(" = ");
        contents.append(literal);
        contents.append("\n");
    }
    assert(contents@ =~= old(contents)@ + role_line(key@, str_option(literal)));
}

fn toml_string_option(raw: Option<&str>) -> (literal: Option<String>)
    ensures
        text_option(literal) == toml_option(str_option(raw)),
        option_reads_back(text_option(literal), str_option(raw)),
{
    match raw {
        Some(raw) => Some(toml_string(raw)),
        None => None,
    }
}

/// Renders a role file from the literals of its values.
pub fn role_file_from_literals(
    name: &str,
    instructions: &str,
    model: Option<&str>,
    model_provider: Option<&str>,
) -> (contents: String)
    ensures
        contents@ == role_file_of(
            name@,
            instructions@,
            str_option(model),
            str_option(model_provider),
        ),
{
    let mut contents = String::from_str("# Generated by `codex fleet team`. Edit freely.\n");
    write_role_line(&mut contents, "name", Some(name));
    write_role_line(&mut contents, "model", model);
    write_role_line(&mut contents, "model_provider", model_provider);
    contents.append("\n");
    write_role_line(&mut contents, "developer_instructions", Some(instructions));
    contents
}

/// Renders a role file. It reads back as what it was given, whatever that is.
pub fn role_file_contents(
    name: &str,
    instructions: &str,
    model: Option<&str>,
    model_provider: Option<&str>,
) -> (contents: String)
    ensures
        contents@ == role_file_text(
            name@,
            instructions@,
            str_option(model),
            str_option(model_provider),
        ),
        read_document(contents@) == Some(
            role_entries(name@, instructions@, str_option(model), str_option(model_provider)),
        ),
{
    let name_literal = toml_string(name);
    let instructions_literal = toml_string(instructions);
    let model_literal = toml_string_option(model);
    let provider_literal = toml_string_option(model_provider);
    proof {
        a_role_file_reads_back(
            name_literal@,
            name@,
            instructions_literal@,
            instructions@,
            text_option(model_literal),
            str_option(model),
            text_option(provider_literal),
            str_option(model_provider),
        );
    }
    role_file_from_literals(
        name_literal.as_str(),
        instructions_literal.as_str(),
        borrow_option(&model_literal),
        borrow_option(&provider_literal),
    )
}

/// The lead's role file, which names neither model nor provider.
pub fn lead_role_file() -> (contents: String)
    ensures
        contents@ == role_file_text(LEAD_ROLE@, LEAD_INSTRUCTIONS@, None, None),
        read_document(contents@) == Some(role_entries(LEAD_ROLE@, LEAD_INSTRUCTIONS@, None, None)),
{
    role_file_contents(LEAD_ROLE, LEAD_INSTRUCTIONS, None, None)
}

/// The worker's role file.
pub fn worker_role_file(model: &str, provider_id: &str) -> (contents: String)
    ensures
        contents@ == role_file_text(
            WORKER_ROLE@,
            WORKER_INSTRUCTIONS@,
            Some(model@),
            Some(provider_id@),
        ),
        read_document(contents@) == Some(
            role_entries(WORKER_ROLE@, WORKER_INSTRUCTIONS@, Some(model@), Some(provider_id@)),
        ),
{
    role_file_contents(WORKER_ROLE, WORKER_INSTRUCTIONS, Some(model), Some(provider_id))
}

} // verus!
