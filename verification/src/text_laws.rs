//! What can be relied on of texts, addresses and archives: numbers that are read back, lines, paths,
//! slashes, and where the parts of an archive stand.
use vstd::prelude::*;

use crate::agent_laws::{lemma_mentioned, lemma_mentioned_before, mentions};
use crate::archive::{header, header_problem, nonce_of, salt_of, ArchiveError};
use crate::buffers::{complete_lines, open_line};
use crate::config::{model_place, ModelView, ProviderType};
use crate::json::{json_get, JsonView};
use crate::model::unsupported_effort;
use crate::model_api::{
    activation_problem, no_such_model, not_implemented, refused, stream_body, without_first_slashes,
    without_last_slashes,
};
use crate::text::{
    all_digits, decimal, digits_value, forward_slashes, is_digit, is_white_space, lemma_line_end,
    line_end, lines_of, parsed_u64, without_dot_prefix, without_return,
};

verus! {

/// The digits of a number are digits, give the number, and begin with no zero but that of zero.
pub proof fn law_digits_give_the_number(number: nat)
    ensures
        all_digits(decimal(number)),
        decimal(number).len() > 0,
        digits_value(decimal(number)) == number,
        decimal(number)[0] == '0' ==> number == 0,
        number < 10 ==> decimal(number) == seq![(('0' as nat) + number) as char],
    decreases number,
{
    if number < 10 {
        let text = decimal(number);
        assert(text.drop_last() =~= Seq::<char>::empty());
        assert(digits_value(text.drop_last()) == 0);
        assert(text.last() as nat == 48 + number);
        assert(is_digit(text[0]));
    } else {
        let front = decimal(number / 10);
        law_digits_give_the_number(number / 10);
        let text = decimal(number);
        assert(text.drop_last() =~= front);
        assert(text.last() as nat == 48 + number % 10);
        assert forall|i: int| 0 <= i < text.len() implies is_digit(#[trigger] text[i]) by {
            if i < front.len() {
                assert(is_digit(front[i]));
            }
        }
        assert(number == number / 10 * 10 + number % 10);
        assert(text[0] == front[0]);
    }
}

/// A number that was written is read again, with or without a plus sign. Two numbers are never
/// written alike.
pub proof fn law_numbers_are_read_again(number: u64, other: u64)
    ensures
        parsed_u64(decimal(number as nat)) == Some(number),
        parsed_u64(seq!['+'] + decimal(number as nat)) == Some(number),
        decimal(number as nat) == decimal(other as nat) ==> number == other,
{
    law_digits_give_the_number(number as nat);
    law_digits_give_the_number(other as nat);
    let text = decimal(number as nat);
    assert(is_digit(text[0]));
    assert((seq!['+'] + text).drop_first() =~= text);
}

/// A text that is a number is made of digits, but for one plus sign before them.
pub proof fn law_only_digits_are_numbers(text: Seq<char>, place: int)
    requires
        0 <= place < text.len(),
        !('0' <= text[place] <= '9'),
        place > 0 || text[0] != '+',
    ensures
        parsed_u64(text) is None,
        parsed_u64(Seq::empty()) is None,
        parsed_u64(seq!['+']) is None,
{
    if text[0] == '+' {
        assert(text.drop_first()[place - 1] == text[place]);
        assert(!is_digit(text.drop_first()[place - 1]));
    } else {
        assert(!is_digit(text[place]));
    }
    assert(seq!['+'].drop_first() =~= Seq::<char>::empty());
}

/// Spaces, tabs and the ends of lines are white space; letters, digits and signs are not.
pub proof fn law_white_space(character: char)
    ensures
        is_white_space(' '),
        is_white_space('\t'),
        is_white_space('\n'),
        is_white_space('\r'),
        33 <= character as nat <= 126 ==> !is_white_space(character),
{
}

/// A line is what stands before a line feed, without a carriage return at its end; the lines behind it
/// are those of the rest.
pub proof fn law_lines_follow_one_another(line: Seq<char>, rest: Seq<char>)
    requires
        !line.contains('\n'),
    ensures
        lines_of(line + seq!['\n'] + rest) == seq![
            if line.len() > 0 && line.last() == '\r' {
                line.drop_last()
            } else {
                line
            },
        ] + lines_of(rest),
        line.len() > 0 ==> lines_of(line) == seq![line],
        lines_of(Seq::empty()).len() == 0,
{
    let text = line + seq!['\n'] + rest;
    let end = line.len() as int;
    assert forall|i: int| 0 <= i < end implies text[i] != '\n' && line[i] != '\n' by {
        assert(text[i] == line[i]);
        assert(line.contains(line[i]));
    }
    assert(text[end] == '\n');
    lemma_line_end(text, end);
    assert(text.subrange(0, end) =~= line);
    assert(text.subrange(end + 1, text.len() as int) =~= rest);
    lemma_line_end(line, end);
    assert(without_return(line) =~= if line.len() > 0 && line.last() == '\r' {
        line.drop_last()
    } else {
        line
    });
}

/// The first line of a text ends at its first line feed.
proof fn lemma_first_line(text: Seq<char>)
    ensures
        line_end(text) <= text.len(),
        forall|i: int| 0 <= i < line_end(text) ==> text[i] != '\n',
        line_end(text) < text.len() ==> text[line_end(text) as int] == '\n',
    decreases text.len(),
{
    if text.len() > 0 && text[0] != '\n' {
        let rest = text.drop_first();
        lemma_first_line(rest);
        assert forall|i: int| 0 <= i < line_end(text) implies text[i] != '\n' by {
            if i > 0 {
                assert(rest[i - 1] == text[i]);
            }
        }
    }
}

/// The pieces that a text gives out are its lines: each ends with its only line feed and is not the last,
/// and what is kept back holds none.
pub proof fn law_pieces_are_lines(text: Seq<char>, place: int)
    ensures
        !open_line(text).contains('\n'),
        0 <= place < complete_lines(text).len() ==> ({
            let piece = complete_lines(text)[place];
            &&& piece.content.len() > 0
            &&& piece.content.last() == '\n'
            &&& !piece.content.drop_last().contains('\n')
            &&& !piece.finished
        }),
    decreases text.len(),
{
    let end = line_end(text) as int;
    lemma_first_line(text);
    if end < text.len() {
        let rest = text.skip(end + 1);
        law_pieces_are_lines(rest, place - 1);
        let line = text.take(end + 1);
        assert(line.drop_last() =~= text.take(end));
        if 0 < place < complete_lines(text).len() {
            assert(complete_lines(text)[place] == complete_lines(rest)[place - 1]);
        }
    }
}

/// Files are named with forward slashes, and nothing else of their names changes.
pub proof fn law_files_are_named_with_forward_slashes(path: Seq<char>, place: int)
    requires
        0 <= place < path.len(),
    ensures
        forward_slashes(path).len() == path.len(),
        path[place] == '\\' ==> forward_slashes(path)[place] == '/',
        path[place] != '\\' ==> forward_slashes(path)[place] == path[place],
{
}

/// Whether a path begins with the directory that it is in.
pub open spec fn begins_here(path: Seq<char>) -> bool {
    path.len() >= 2 && path[0] == '.' && path[1] == '/'
}

/// A file that is named from where one is has the same name without that, however often it is said.
pub proof fn law_here_is_not_part_of_a_name(path: Seq<char>)
    ensures
        !begins_here(without_dot_prefix(path)),
        !begins_here(path) ==> without_dot_prefix(path) == path,
        without_dot_prefix(seq!['.', '/'] + path) == without_dot_prefix(path),
        without_dot_prefix(path).is_suffix_of(path),
    decreases path.len(),
{
    let longer = seq!['.', '/'] + path;
    assert(longer.subrange(2, longer.len() as int) =~= path);
    if begins_here(path) {
        let rest = path.subrange(2, path.len() as int);
        law_here_is_not_part_of_a_name(rest);
        let kept = without_dot_prefix(path);
        assert(path.subrange(path.len() - kept.len(), path.len() as int) =~= rest.subrange(
            rest.len() - kept.len(),
            rest.len() as int,
        ));
    } else {
        assert(path.subrange(0, path.len() as int) =~= path);
    }
}

/// A text of slashes.
pub open spec fn is_slashes(text: Seq<char>) -> bool {
    forall|i: int| 0 <= i < text.len() ==> #[trigger] text[i] == '/'
}

/// The slashes at the end of an address are left out, however many they are, and nothing else.
pub proof fn law_last_slashes_are_left_out(text: Seq<char>, slashes: Seq<char>)
    requires
        is_slashes(slashes),
        text.len() > 0 ==> text.last() != '/',
    ensures
        without_last_slashes(text + slashes) == text,
    decreases slashes.len(),
{
    if slashes.len() == 0 {
        assert(text + slashes =~= text);
    } else {
        assert((text + slashes).drop_last() =~= text + slashes.drop_last());
        assert(slashes.last() == '/');
        law_last_slashes_are_left_out(text, slashes.drop_last());
    }
}

/// The slashes at the start of the second half of an address are left out, and nothing else.
pub proof fn law_first_slashes_are_left_out(slashes: Seq<char>, text: Seq<char>)
    requires
        is_slashes(slashes),
        text.len() > 0 ==> text[0] != '/',
    ensures
        without_first_slashes(slashes + text) == text,
    decreases slashes.len(),
{
    if slashes.len() == 0 {
        assert(slashes + text =~= text);
    } else {
        assert((slashes + text).skip(1) =~= slashes.skip(1) + text);
        assert((slashes + text)[0] == '/');
        law_first_slashes_are_left_out(slashes.skip(1), text);
    }
}

/// A request that streams is sent as it was made where the provider is Codex or nothing bounds the
/// answer. Otherwise it must be an object, of which only the bounds of the answer may change.
pub proof fn law_streamed_requests_are_sent_as_made(
    model: ModelView,
    body: Result<JsonView, Seq<char>>,
    output_limit: Option<u64>,
    key: Seq<char>,
)
    ensures
        model.provider == ProviderType::CodexOauth ==> stream_body(model, body, output_limit)
            == body,
        output_limit is None ==> stream_body(model, body, output_limit) == body,
        body is Err ==> stream_body(model, body, output_limit) == body,
        model.provider != ProviderType::CodexOauth && output_limit is Some ==> (
        body matches Ok(value) ==> (stream_body(model, body, output_limit) is Ok <==> value
            is Object)),
        key != "max_output_tokens"@ && key != "max_completion_tokens"@ && key != "max_tokens"@ ==> (
        body matches Ok(value) ==> (stream_body(model, body, output_limit) matches Ok(sent)
            ==> json_get(sent, key) == json_get(value, key))),
{
}

/// A model can be talked to exactly if the first model of its name is one whose provider is known
/// here.
pub proof fn law_models_that_can_be_talked_to(models: Seq<ModelView>, name: Seq<char>)
    ensures
        activation_problem(models, name) is None <==> exists|i: int|
            {
                &&& 0 <= i < models.len()
                &&& (#[trigger] models[i]).name == name
                &&& models[i].provider != ProviderType::Anthropic
                &&& forall|j: int| 0 <= j < i ==> (#[trigger] models[j]).name != name
            },
{
    crate::config::lemma_model_place(models, name);
    if let Some(place) = model_place(models, name) {
        assert(models[place].name == name);
        if activation_problem(models, name) is Some {
            assert forall|i: int|
                !({
                    &&& 0 <= i < models.len()
                    &&& (#[trigger] models[i]).name == name
                    &&& models[i].provider != ProviderType::Anthropic
                    &&& forall|j: int| 0 <= j < i ==> (#[trigger] models[j]).name != name
                }) by {
                if 0 <= i < models.len() && models[i].name == name {
                    if i < place {
                        assert(models[i].name != name);
                    } else if place < i {
                        assert(models[place].name == name);
                    }
                }
            }
        }
    }
}

/// The parts of an archive stand where they stand in every archive: its name, its version, what the
/// key costs, the salt and the nonce.
pub proof fn law_archives_are_laid_out_alike(salt: Seq<u8>, nonce: Seq<u8>, rest: Seq<u8>)
    requires
        salt.len() == 16,
        nonce.len() == 24,
    ensures
        header(salt, nonce).len() == 72,
        forall|i: int|
            0 <= i < 15 ==> (#[trigger] header(salt, nonce)[i]) as int == "ME-MODEL-EXPORT"@[i] as int,
        header(salt, nonce)[15] == 0,
        header(salt, nonce).subrange(16, 20) == seq![1u8, 0, 0, 0],
        header(salt, nonce).subrange(20, 24) == seq![0u8, 76, 0, 0],
        header(salt, nonce).subrange(24, 28) == seq![2u8, 0, 0, 0],
        header(salt, nonce).subrange(28, 32) == seq![1u8, 0, 0, 0],
        header(salt, nonce).subrange(32, 48) == salt,
        header(salt, nonce).subrange(48, 72) == nonce,
        salt_of(header(salt, nonce) + rest) == salt,
        nonce_of(header(salt, nonce) + rest) == nonce,
{
    reveal_strlit("ME-MODEL-EXPORT");
    let whole = header(salt, nonce);
    assert(whole.len() == 72);
    assert(whole.subrange(16, 20) =~= seq![1u8, 0, 0, 0]);
    assert(whole.subrange(20, 24) =~= seq![0u8, 76, 0, 0]);
    assert(whole.subrange(24, 28) =~= seq![2u8, 0, 0, 0]);
    assert(whole.subrange(28, 32) =~= seq![1u8, 0, 0, 0]);
    assert(whole.subrange(32, 48) =~= salt);
    assert(whole.subrange(48, 72) =~= nonce);
    assert(salt_of(whole + rest) =~= salt);
    assert(nonce_of(whole + rest) =~= nonce);
}

/// The number that stands in a file from a place on, the lowest byte first.
pub open spec fn number_at(file: Seq<u8>, place: int) -> int {
    file[place] + 256 * file[place + 1] + 65536 * file[place + 2] + 16777216 * file[place + 3]
}

/// A file is taken for an archive exactly if it is long enough, begins with the name of archives, is of
/// the first version, and its key costs neither too little nor too much.
pub proof fn law_archives_are_known(file: Seq<u8>)
    ensures
        header_problem(file) is None <==> {
            &&& file.len() >= 88
            &&& forall|i: int|
                0 <= i < 15 ==> (#[trigger] file[i]) as int == "ME-MODEL-EXPORT"@[i] as int
            &&& file[15] == 0
            &&& number_at(file, 16) == 1
            &&& 8192 <= number_at(file, 20) <= 262144
            &&& 1 <= number_at(file, 24) <= 10
            &&& 1 <= number_at(file, 28) <= 16
        },
        file.len() >= 88 && (forall|i: int|
            0 <= i < 15 ==> (#[trigger] file[i]) as int == "ME-MODEL-EXPORT"@[i] as int) && file[15]
            == 0 && number_at(file, 16) != 1 ==> (header_problem(
            file,
        ) matches Some(ArchiveError::UnsupportedFile { version }) && version as int == number_at(
            file,
            16,
        )),
{
    reveal_strlit("ME-MODEL-EXPORT");
    if file.len() >= 88 {
        let start = file.take(16);
        let magic = crate::archive::magic();
        assert(forall|i: int| 0 <= i < 16 ==> #[trigger] start[i] == file[i]);
        assert(forall|i: int|
            0 <= i < 15 ==> (#[trigger] magic[i]) as int == "ME-MODEL-EXPORT"@[i] as int);
        if start == magic {
            assert forall|i: int| 0 <= i < 15 implies (#[trigger] file[i]) as int
                == "ME-MODEL-EXPORT"@[i] as int by {
                assert(start[i] == magic[i]);
            }
            assert(start[15] == magic[15]);
        }
        if (forall|i: int|
            0 <= i < 15 ==> (#[trigger] file[i]) as int == "ME-MODEL-EXPORT"@[i] as int) && file[15]
            == 0 {
            assert forall|i: int| 0 <= i < 16 implies start[i] == magic[i] by {
                assert(start[i] == file[i]);
            }
            assert(start =~= magic);
        }
        assert(crate::archive::header_number(file, 0) == number_at(file, 16));
        assert(crate::archive::header_number(file, 4) == number_at(file, 20));
        assert(crate::archive::header_number(file, 8) == number_at(file, 24));
        assert(crate::archive::header_number(file, 12) == number_at(file, 28));
        assert(0 <= number_at(file, 16) <= u32::MAX);
    }
}

/// Whoever is refused reads what was refused and why: the status and the message of the provider, the
/// provider that is not known here, the model that is not there, the effort that a model does not take.
pub proof fn law_refusals_name_what_was_refused(
    provider: ProviderType,
    status: Seq<char>,
    message: Seq<char>,
    model: Seq<char>,
    effort: Seq<char>,
)
    ensures
        mentions(refused(provider, status, message), status),
        mentions(refused(provider, status, message), message),
        mentions(not_implemented(provider), provider.name()),
        mentions(no_such_model(model), model),
        mentions(unsupported_effort(model, effort), model),
        mentions(unsupported_effort(model, effort), effort),
{
    let head = if provider == ProviderType::CodexOauth {
        "Codex model request failed with "@
    } else {
        "model request failed with "@
    };
    let front = head + status + ": "@;
    assert(refused(provider, status, message) == front + message);
    lemma_mentioned(head, status);
    lemma_mentioned_before(head + status, status, ": "@);
    lemma_mentioned_before(front, status, message);
    lemma_mentioned(front, message);
    lemma_mentioned("provider "@, provider.name());
    lemma_mentioned_before(
        "provider "@ + provider.name(),
        provider.name(),
        " is not implemented"@,
    );
    lemma_mentioned("model "@, model);
    lemma_mentioned_before("model "@ + model, model, " does not exist"@);
    let named = "model "@ + model + " does not support reasoning effort "@;
    lemma_mentioned_before("model "@ + model, model, " does not support reasoning effort "@);
    lemma_mentioned_before(named, model, effort);
    lemma_mentioned_before(named + effort, model, ""@);
    lemma_mentioned(named, effort);
    lemma_mentioned_before(named + effort, effort, ""@);
}

} // verus!
