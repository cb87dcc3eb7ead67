//! What can be relied on when models are carried from one machine to another: which credential
//! counts, that none is lost on the way, and what a reset may delete.
use vstd::prelude::*;

use crate::config::{ModelConfig, ModelView};
use crate::json::JsonView;
use crate::text::{is_blank, is_white_space};
use crate::transfer::{
    archives_models, blank_credential, codex_problem, credential_count, credential_file,
    credential_files, credential_of, digest, init_text, joined, lemma_name_end_range, models_file,
    name_end, not_blank, path_names, restored, safe_reset_target, ArchivedModel, CredentialSource,
    InitResult,
};

verus! {

/// Whether a text is there and not empty.
pub open spec fn given(text: Option<Seq<char>>) -> bool {
    text matches Some(found) && found.len() > 0
}

/// A key of the model's own is its credential, whatever the variable and the file say. Without one
/// the variable that the model names is, whatever the file says; then the file is. A model has no
/// credential only if it has neither a key, nor a variable that it names, nor a file.
pub proof fn law_own_key_is_the_credential(
    model: ModelView,
    variable: Option<Seq<char>>,
    source: CredentialSource,
)
    requires
        credential_of(model, variable, source),
    ensures
        given(model.api_key) ==> (source matches CredentialSource::Given(text) && Some(text@)
            == model.api_key),
        !given(model.api_key) && model.api_key_env is Some && given(variable) ==> (source matches
            CredentialSource::Given(text) && Some(text@) == variable),
        source is Absent <==> !given(model.api_key) && !(model.api_key_env is Some && given(
            variable,
        )) && model.credential_file is None,
        source matches CredentialSource::File(path) ==> Some(path@) == model.credential_file
            && !given(model.api_key) && !(model.api_key_env is Some && given(variable)),
        source matches CredentialSource::Given(text) ==> text@.len() > 0,
{
}

/// A variable counts only for a model that names one and has no key of its own.
pub proof fn law_variables_of_others_do_not_count(
    model: ModelView,
    one: Option<Seq<char>>,
    other: Option<Seq<char>>,
    source: CredentialSource,
)
    requires
        given(model.api_key) || model.api_key_env is None,
    ensures
        credential_of(model, one, source) <==> credential_of(model, other, source),
{
}

/// An imported model has the credential that was archived with it, in a file below the directory
/// that holds it, and reads it from nowhere else; all but that is as it was archived. One without a
/// credential keeps its key and its variable, and forgets a file that did not come along.
pub proof fn law_imported_model_finds_its_credential(
    home: Seq<char>,
    models: Seq<ArchivedModel>,
    place: int,
    variable: Option<Seq<char>>,
    source: CredentialSource,
)
    requires
        0 <= place < models.len(),
        credential_of(restored(home, models[place]), variable, source),
    ensures
        ({
            let model = restored(home, models[place]);
            let before = models[place].config@;
            let files = credential_files(home, models, models.len() as int);
            &&& models[place].credential matches Some(credential) ==> {
                &&& source matches CredentialSource::File(path)
                &&& files.dom().contains(path@)
                &&& digest(files[path@]) == digest(credential@)
                &&& exists|i: int|
                    #![trigger models[i]]
                    0 <= i <= place && (models[i].credential matches Some(kept) && kept@
                        == files[path@])
            }
            &&& models[place].credential is None ==> source !is File && model.api_key
                == before.api_key && model.api_key_env == before.api_key_env
            &&& model.name == before.name
            &&& model.provider == before.provider
            &&& model.model == before.model
            &&& model.base_url == before.base_url
            &&& model.endpoint == before.endpoint
            &&& model.reserve_output_context == before.reserve_output_context
            &&& model.source_url == before.source_url
            &&& model.timeout_seconds == before.timeout_seconds
            &&& model.context_window == before.context_window
            &&& model.max_output_tokens == before.max_output_tokens
            &&& model.reasoning_efforts == before.reasoning_efforts
            &&& model.input_modalities == before.input_modalities
            &&& model.parameters == before.parameters
            &&& model.effort_parameters == before.effort_parameters
        }),
{
    if let Some(credential) = models[place].credential {
        lemma_file_of(home, models, models.len() as int, place);
    }
}

proof fn lemma_same_file_same_digest(home: Seq<char>, one: Seq<char>, other: Seq<char>)
    requires
        credential_file(home, one) == credential_file(home, other),
    ensures
        one == other,
{
    law_credential_files_differ(home, one, other);
}

proof fn lemma_file_of(home: Seq<char>, models: Seq<ArchivedModel>, count: int, place: int)
    requires
        0 <= place < count <= models.len(),
        models[place].credential is Some,
    ensures
        ({
            let files = credential_files(home, models, count);
            let credential = models[place].credential->0@;
            let path = credential_file(home, digest(credential));
            &&& files.dom().contains(path)
            &&& digest(files[path]) == digest(credential)
            &&& exists|i: int|
                #![trigger models[i]]
                0 <= i <= place && (models[i].credential matches Some(kept) && kept@
                    == files[path])
        }),
    decreases count,
{
    let before = credential_files(home, models, count - 1);
    let credential = models[place].credential->0@;
    let path = credential_file(home, digest(credential));
    if place < count - 1 {
        lemma_file_of(home, models, count - 1, place);
    } else if before.dom().contains(path) {
        lemma_file_from(home, models, count - 1, path);
        let i = choose|i: int|
            #![trigger models[i]]
            0 <= i < count - 1 && (models[i].credential matches Some(kept) && path
                == credential_file(home, digest(kept@)) && kept@ == before[path]);
        lemma_same_file_same_digest(home, digest(models[i].credential->0@), digest(credential));
        assert(models[i].credential->0@ == credential_files(home, models, count)[path]);
    } else {
        assert(models[place].credential->0@ == credential_files(home, models, count)[path]);
    }
}

proof fn lemma_file_from(home: Seq<char>, models: Seq<ArchivedModel>, count: int, path: Seq<char>)
    requires
        0 <= count <= models.len(),
        credential_files(home, models, count).dom().contains(path),
    ensures
        exists|i: int|
            #![trigger models[i]]
            0 <= i < count && (models[i].credential matches Some(kept) && path == credential_file(
                home,
                digest(kept@),
            ) && kept@ == credential_files(home, models, count)[path]),
    decreases count,
{
    if count > 0 {
        let before = credential_files(home, models, count - 1);
        if before.dom().contains(path) {
            lemma_file_from(home, models, count - 1, path);
            let i = choose|i: int|
                #![trigger models[i]]
                0 <= i < count - 1 && (models[i].credential matches Some(kept) && path
                    == credential_file(home, digest(kept@)) && kept@ == before[path]);
            assert(models[i].credential->0@ == credential_files(home, models, count)[path]);
        } else {
            assert(models[count - 1].credential->0@ == credential_files(home, models, count)[path]);
        }
    }
}

/// Nothing is written but credentials of the archive, each to the file that is named after it.
pub proof fn law_only_credentials_are_written(
    home: Seq<char>,
    models: Seq<ArchivedModel>,
    path: Seq<char>,
)
    requires
        credential_files(home, models, models.len() as int).dom().contains(path),
    ensures
        exists|i: int|
            #![trigger models[i]]
            0 <= i < models.len() && (models[i].credential matches Some(kept) && path
                == credential_file(home, digest(kept@)) && kept@ == credential_files(
                home,
                models,
                models.len() as int,
            )[path]),
{
    lemma_file_from(home, models, models.len() as int, path);
}

/// Different credentials have different files, all of them in the directory for credentials below
/// the one that they belong to.
pub proof fn law_credential_files_differ(home: Seq<char>, one: Seq<char>, other: Seq<char>)
    ensures
        credential_file(home, one) == credential_file(home, other) ==> one == other,
        path_names(credential_file(home, one)) == path_names(home) + seq!["credentials"@]
            + path_names("model-credential-"@ + one + ".key"@),
{
    let head = "model-credential-"@;
    let tail = ".key"@;
    reveal_strlit("model-credential-");
    reveal_strlit(".key");
    reveal_strlit("credentials");
    reveal_strlit("/");
    reveal_strlit(".");
    let directory = joined(home, "credentials"@);
    assert(directory.len() > 0);
    assert(directory.last() == 's') by {
        assert("credentials"@[10] == 's');
    }
    let a = credential_file(home, one);
    let b = credential_file(home, other);
    if a == b {
        let first = directory.len() + 1 + head.len();
        assert(a == directory + "/"@ + (head + one + tail));
        assert(b == directory + "/"@ + (head + other + tail));
        assert(a.len() == first + one.len() + tail.len());
        assert(b.len() == first + other.len() + tail.len());
        assert(one.len() == other.len());
        assert forall|i: int| 0 <= i < one.len() implies one[i] == other[i] by {
            assert(a[first + i] == one[i]);
            assert(b[first + i] == other[i]);
        }
        assert(one =~= other);
    }
    let name = head + one + tail;
    law_paths_are_joined(directory, name);
    law_paths_are_joined(home, "credentials"@);
    lemma_plain_name("credentials"@);
}

proof fn lemma_plain_name(name: Seq<char>)
    requires
        name.len() > 1,
        forall|i: int| 0 <= i < name.len() ==> #[trigger] name[i] != '/',
    ensures
        path_names(name) == seq![name],
{
    reveal_strlit(".");
    lemma_no_slash(name);
    assert(name.take(name.len() as int) =~= name);
    assert(seq![name] + Seq::<Seq<char>>::empty() =~= seq![name]);
}

proof fn lemma_no_slash(name: Seq<char>)
    requires
        forall|i: int| 0 <= i < name.len() ==> #[trigger] name[i] != '/',
    ensures
        name_end(name) == name.len(),
    decreases name.len(),
{
    if name.len() > 0 {
        assert forall|i: int| 0 <= i < name.skip(1).len() implies #[trigger] name.skip(1)[i]
            != '/' by {
            assert(name[i + 1] != '/');
        }
        lemma_no_slash(name.skip(1));
    }
}

proof fn lemma_name_end_joined(first: Seq<char>, second: Seq<char>)
    ensures
        name_end(first + "/"@ + second) == name_end(first),
    decreases first.len(),
{
    reveal_strlit("/");
    let path = first + "/"@ + second;
    if first.len() == 0 || first[0] == '/' {
        assert(path[0] == '/') by {
            if first.len() == 0 {
                assert(path[0] == "/"@[0]);
            }
        }
    } else {
        assert(path[0] == first[0]);
        assert(path.skip(1) =~= first.skip(1) + "/"@ + second);
        lemma_name_end_joined(first.skip(1), second);
    }
}

proof fn lemma_names_joined(first: Seq<char>, second: Seq<char>)
    ensures
        path_names(first + "/"@ + second) == path_names(first) + path_names(second),
    decreases first.len(),
{
    reveal_strlit("/");
    let path = first + "/"@ + second;
    lemma_name_end_joined(first, second);
    lemma_name_end_range(first);
    let end = name_end(first);
    assert(path.take(end) =~= first.take(end));
    if end < first.len() {
        assert(path.skip(end + 1) =~= first.skip(end + 1) + "/"@ + second);
        lemma_names_joined(first.skip(end + 1), second);
        assert(path_names(path) =~= path_names(first) + path_names(second));
    } else {
        assert(path.skip(end + 1) =~= second);
        assert(path_names(path) =~= path_names(first) + path_names(second));
    }
}

/// The names along a path below a directory are those of the directory and then those below it,
/// whether or not the directory ends in a slash, and the path ends with what stands below it.
pub proof fn law_paths_are_joined(directory: Seq<char>, tail: Seq<char>)
    ensures
        path_names(joined(directory, tail)) == path_names(directory) + path_names(tail),
        joined(directory, tail).len() >= tail.len(),
        joined(directory, tail).skip(joined(directory, tail).len() - tail.len()) == tail,
{
    reveal_strlit("/");
    let path = joined(directory, tail);
    assert(path.skip(path.len() - tail.len()) =~= tail);
    if directory.len() == 0 {
        assert(path_names(directory) =~= Seq::<Seq<char>>::empty()) by {
            reveal_strlit(".");
        }
        assert(path_names(directory) + path_names(tail) =~= path_names(tail));
    } else if directory.last() == '/' {
        let front = directory.drop_last();
        assert(front + "/"@ + tail =~= directory + tail);
        assert(front + "/"@ + Seq::<char>::empty() =~= directory);
        lemma_names_joined(front, tail);
        lemma_names_joined(front, Seq::empty());
        assert(path_names(Seq::<char>::empty()) =~= Seq::<Seq<char>>::empty());
        assert(path_names(front) + Seq::<Seq<char>>::empty() =~= path_names(front));
    } else {
        lemma_names_joined(directory, tail);
    }
}

/// The names along a path hold no slash, and none of them is empty or a single dot.
pub proof fn law_names_are_plain(path: Seq<char>, which: int)
    requires
        0 <= which < path_names(path).len(),
    ensures
        path_names(path)[which].len() > 0,
        path_names(path)[which] != "."@,
        forall|i: int|
            0 <= i < path_names(path)[which].len() ==> #[trigger] path_names(path)[which][i] != '/',
    decreases path.len(),
{
    lemma_name_end_range(path);
    let end = name_end(path);
    let name = path.take(end);
    lemma_before_the_end(path);
    let kept = !(name.len() == 0 || name == "."@);
    if kept && which == 0 {
        assert(path_names(path)[0] == name);
    } else {
        let rest = path.skip(end + 1);
        let at = if kept {
            which - 1
        } else {
            which
        };
        law_names_are_plain(rest, at);
        assert(path_names(path)[which] == path_names(rest)[at]);
    }
}

proof fn lemma_before_the_end(path: Seq<char>)
    ensures
        forall|i: int| 0 <= i < name_end(path) ==> #[trigger] path.take(name_end(path))[i] != '/',
    decreases path.len(),
{
    lemma_name_end_range(path);
    if path.len() > 0 && path[0] != '/' {
        lemma_before_the_end(path.skip(1));
        lemma_name_end_range(path.skip(1));
        let end = name_end(path);
        assert forall|i: int| 0 <= i < end implies #[trigger] path.take(end)[i] != '/' by {
            if i > 0 {
                assert(path.skip(1).take(end - 1)[i - 1] != '/');
            }
        }
    }
}

/// A reset never goes below a relative path, the root, a path that climbs, or the home of the user,
/// however those are spelled; it goes below every other one.
pub proof fn law_reset_spares_what_is_not_its_own(
    home: Seq<char>,
    user_home: Option<Seq<char>>,
    climbing: Seq<char>,
)
    ensures
        home.len() == 0 || home[0] != '/' ==> !safe_reset_target(home, user_home),
        path_names(home).len() == 0 ==> !safe_reset_target(home, user_home),
        path_names(home).contains(".."@) ==> !safe_reset_target(home, user_home),
        !safe_reset_target(home, Some(home)),
        !safe_reset_target(home, Some(home + "/"@)),
        !safe_reset_target(home + "/"@, Some(home)),
        !safe_reset_target(home + "/../"@ + climbing, user_home),
        home.len() > 0 && home[0] == '/' && path_names(home).len() > 0 && !path_names(
            home,
        ).contains(".."@) && (user_home matches Some(own) ==> path_names(own) != path_names(home))
            ==> safe_reset_target(home, user_home),
{
    reveal_strlit("/");
    reveal_strlit("/../");
    reveal_strlit("..");
    reveal_strlit(".");
    assert(home + "/"@ + Seq::<char>::empty() =~= home + "/"@);
    lemma_names_joined(home, Seq::empty());
    assert(path_names(Seq::<char>::empty()) =~= Seq::<Seq<char>>::empty());
    assert(path_names(home) + Seq::<Seq<char>>::empty() =~= path_names(home));
    let up = ".."@ + "/"@ + climbing;
    assert(home + "/../"@ + climbing =~= home + "/"@ + up);
    lemma_names_joined(home, up);
    lemma_names_joined(".."@, climbing);
    lemma_plain_name(".."@);
    let names = path_names(home) + (seq![".."@] + path_names(climbing));
    assert(names[path_names(home).len() as int] == ".."@);
    if home.len() > 0 {
        assert((home + "/"@)[0] == home[0]);
    }
}

/// The text of a file is taken as it is, unless there is nothing but white space in it.
pub proof fn law_blank_texts_are_none(text: Seq<char>, place: int)
    ensures
        not_blank(None) is None,
        0 <= place < text.len() && !is_white_space(text[place]) ==> not_blank(Some(text)) == Some(
            text,
        ),
        is_blank(text) ==> not_blank(Some(text)) is None,
{
}

/// The credentials that are counted are those that there are: none counts for nothing, each for
/// one, and lists in a row for as much as they do apart.
pub proof fn law_credentials_are_counted(
    first: Seq<Option<String>>,
    second: Seq<Option<String>>,
    credential: Option<String>,
)
    ensures
        credential_count(first + second) == credential_count(first) + credential_count(second),
        credential_count(seq![credential]) == (if credential is Some {
            1nat
        } else {
            0nat
        }),
    decreases second.len(),
{
    if second.len() == 0 {
        assert(first + second =~= first);
    } else {
        law_credentials_are_counted(first, second.drop_last(), credential);
        assert((first + second).drop_last() =~= first + second.drop_last());
    }
    assert(seq![credential].drop_last() =~= Seq::<Option<String>>::empty());
    assert(credential_count(seq![credential].drop_last()) == 0);
    assert(seq![credential].last() == credential);
}

/// An archive is refused for the first blank credential, and only if there is one.
pub proof fn law_blank_credentials_are_found(models: Seq<ArchivedModel>, count: int)
    requires
        0 <= count <= models.len(),
    ensures
        blank_credential(models, count) is None <==> forall|i: int|
            0 <= i < count ==> ((#[trigger] models[i]).credential matches Some(text) ==> !is_blank(
                text@,
            )),
        blank_credential(models, count) matches Some(name) ==> exists|i: int|
            0 <= i < count && (#[trigger] models[i]).config@.name == name && (models[i].credential
                matches Some(text) && is_blank(text@)) && forall|j: int|
                0 <= j < i ==> ((#[trigger] models[j]).credential matches Some(text) ==> !is_blank(
                    text@,
                )),
    decreases count,
{
    if count > 0 {
        law_blank_credentials_are_found(models, count - 1);
        let last = models[count - 1];
    }
}

/// A login is taken if and only if it is an object; and the models of an archive are those that
/// there were, each with its own credential.
pub proof fn law_archive_holds_what_there_was(
    document: JsonView,
    archived: Seq<ArchivedModel>,
    models: Seq<ModelConfig>,
    credentials: Seq<Option<String>>,
    place: int,
)
    ensures
        codex_problem(Some(document)) is None <==> document is Object,
        codex_problem(None) is Some,
        archives_models(archived, models, credentials) && 0 <= place < models.len()
            ==> archived.len() == models.len() && archived[place].config@ == models[place]@
            && archived[place].credential == credentials[place],
{
}

/// What the user is told of a setup names the file, unless nothing was done.
pub proof fn law_user_is_told_where_the_models_are(result: InitResult, home: Seq<char>)
    ensures
        !result.cancelled ==> init_text(result).len() >= result.config_file@.len() && init_text(
            result,
        ).skip(init_text(result).len() - result.config_file@.len()) == result.config_file@,
        result.cancelled ==> init_text(result) == "未重置全局配置。"@,
        !result.cancelled && result.reset ==> init_text(result) == "已完全重置全局配置："@
            + result.config_file@,
        !result.cancelled && !result.reset ==> init_text(result) == "已初始化全局配置："@
            + result.config_file@,
        path_names(models_file(home)) == path_names(home) + seq!["conf.d"@, "models.toml"@],
{
    if !result.cancelled {
        let text = init_text(result);
        assert(text.skip(text.len() - result.config_file@.len()) =~= result.config_file@);
    }
    law_paths_are_joined(home, "conf.d/models.toml"@);
    reveal_strlit("conf.d/models.toml");
    reveal_strlit("conf.d");
    reveal_strlit("models.toml");
    reveal_strlit("/");
    assert("conf.d/models.toml"@ =~= "conf.d"@ + "/"@ + "models.toml"@);
    lemma_names_joined("conf.d"@, "models.toml"@);
    lemma_plain_name("conf.d"@);
    lemma_plain_name("models.toml"@);
    assert(seq!["conf.d"@] + seq!["models.toml"@] =~= seq!["conf.d"@, "models.toml"@]);
}

} // verus!
