//! Setting up the models of a user, and carrying them from one machine to another.
use vstd::prelude::*;

use crate::config::{
    copy_text, find_model, lemma_model_place, model_place, models_view, text_in, GlobalConfig,
    ModelConfig, ModelView,
};
use crate::json::{json_read, parse_json, Json, JsonView};
use crate::text::{
    blank, characters, decimal, is_blank, join3, same, say1, say2, text_between, trim, trimmed,
    views,
};

verus! {

/// The version of what an archive holds.
pub const PAYLOAD_VERSION: u32 = 1;

/// What came of setting up the models.
#[derive(Debug, PartialEq, Eq)]
pub struct InitResult {
    pub config_file: String,
    pub reset: bool,
    pub cancelled: bool,
}

/// What came of writing an archive.
#[derive(Debug, PartialEq, Eq)]
pub struct ExportResult {
    pub file: String,
    pub models: usize,
    pub model_credentials: usize,
    pub codex_credential: bool,
}

/// What came of reading an archive in.
#[derive(Debug, PartialEq, Eq)]
pub struct ImportResult {
    pub config_file: String,
    pub added: usize,
    pub overwritten: usize,
    pub model_credentials: usize,
    pub codex_credential: bool,
    pub default_model: String,
}

/// A model in an archive, with what it is reached by.
#[derive(Debug)]
pub struct ArchivedModel {
    pub config: ModelConfig,
    pub credential: Option<String>,
}

/// What an archive holds.
#[derive(Debug)]
pub struct ArchivePayload {
    pub version: u32,
    pub exported_at_ms: u64,
    pub global_version: u32,
    pub default_model: String,
    pub models: Vec<ArchivedModel>,
    pub codex_auth: Option<String>,
}

/// Why models cannot be carried over.
#[derive(Debug)]
pub enum TransferError {
    UnsafeReset { home: String },
    CodexNotJson,
    CodexNotObject,
    UnsupportedPayload { version: u32 },
    EmptyCredential { model: String },
    VersionMismatch { imported: u32, existing: u32 },
}

impl TransferError {
    /// What is said of the failure.
    pub open spec fn text(&self) -> Seq<char> {
        match *self {
            TransferError::UnsafeReset { home } =>
                "refusing to recursively reset unsafe config path "@ + home@ + ""@,
            TransferError::CodexNotJson => "Codex OAuth credential is not valid JSON"@,
            TransferError::CodexNotObject => "Codex OAuth credential root must be a JSON object"@,
            TransferError::UnsupportedPayload { version } =>
                "unsupported model export payload version "@ + decimal(version as nat) + ""@,
            TransferError::EmptyCredential { model } => "model "@ + model@
                + " has an empty archived credential"@,
            TransferError::VersionMismatch { imported, existing } =>
                "cannot merge global config version "@ + decimal(imported as nat)
                    + " into version "@ + decimal(existing as nat) + ""@,
        }
    }

    /// What is said of the failure.
    pub fn message(&self) -> (text: String)
        ensures
            text@ == self.text(),
    {
        match self {
            TransferError::UnsafeReset { home } => join3(
                "refusing to recursively reset unsafe config path ",
                home.as_str(),
                "",
            ),
            TransferError::CodexNotJson => "Codex OAuth credential is not valid JSON".to_owned(),
            TransferError::CodexNotObject =>
                "Codex OAuth credential root must be a JSON object".to_owned(),
            TransferError::UnsupportedPayload { version } => say1(
                "unsupported model export payload version ",
                *version as u64,
                "",
            ),
            TransferError::EmptyCredential { model } => join3(
                "model ",
                model.as_str(),
                " has an empty archived credential",
            ),
            TransferError::VersionMismatch { imported, existing } => say2(
                "cannot merge global config version ",
                *imported as u64,
                " into version ",
                *existing as u64,
                "",
            ),
        }
    }
}

/// A path below a directory.
pub open spec fn joined(directory: Seq<char>, tail: Seq<char>) -> Seq<char> {
    if directory.len() == 0 {
        tail
    } else if directory.last() == '/' {
        directory + tail
    } else {
        directory + "/"@ + tail
    }
}

/// The path below the directory.
pub fn join_path(directory: &str, tail: &str) -> (path: String)
    ensures
        path@ == joined(directory@, tail@),
{
    let length = directory.unicode_len();
    if length == 0 {
        tail.to_owned()
    } else if directory.get_char(length - 1) == '/' {
        let mut path = directory.to_owned();
        path.append(tail);
        path
    } else {
        join3(directory, "/", tail)
    }
}

/// The names along a path: what stands between its slashes, but for nothing and single dots.
pub open spec fn path_names(path: Seq<char>) -> Seq<Seq<char>>
    decreases path.len(),
{
    proof {
        lemma_name_end_range(path);
    }
    let end = name_end(path);
    let name = path.take(end);
    let rest = if end < path.len() {
        path_names(path.skip(end + 1))
    } else {
        Seq::empty()
    };
    if name.len() == 0 || name == "."@ {
        rest
    } else {
        seq![name] + rest
    }
}

/// Where the first name of a path ends.
pub open spec fn name_end(path: Seq<char>) -> int
    decreases path.len(),
{
    if path.len() == 0 || path[0] == '/' {
        0
    } else {
        1 + name_end(path.skip(1))
    }
}

proof fn lemma_name_end(path: Seq<char>, end: int)
    requires
        0 <= end <= path.len(),
        forall|i: int| 0 <= i < end ==> #[trigger] path[i] != '/',
        end < path.len() ==> path[end] == '/',
    ensures
        name_end(path) == end,
    decreases path.len(),
{
    if end > 0 {
        assert(path[0] != '/');
        assert forall|i: int| 0 <= i < end - 1 implies #[trigger] path.skip(1)[i] != '/' by {
            assert(path[i + 1] != '/');
        }
        lemma_name_end(path.skip(1), end - 1);
    }
}

/// The first name ends within the path.
pub proof fn lemma_name_end_range(path: Seq<char>)
    ensures
        0 <= name_end(path) <= path.len(),
    decreases path.len(),
{
    if path.len() > 0 && path[0] != '/' {
        lemma_name_end_range(path.skip(1));
    }
}

/// The names along the path.
pub fn names_along(path: &str) -> (names: Vec<String>)
    ensures
        views(names@) == path_names(path@),
{
    let list = characters(path);
    let mut names: Vec<String> = Vec::new();
    let mut from: usize = 0;
    let ghost all = path_names(path@);
    assert(list@.skip(0) =~= path@);
    assert(views(names@) + path_names(list@.skip(0)) =~= all);
    loop
        invariant_except_break
            from <= list@.len(),
            views(names@) + path_names(list@.skip(from as int)) == all,
        ensures
            views(names@) == all,
        decreases list@.len() - from,
    {
        let ghost rest = list@.skip(from as int);
        let mut end: usize = from;
        while end < list.len() && list[end] != '/'
            invariant
                from <= end <= list@.len(),
                forall|i: int| from <= i < end ==> #[trigger] list@[i] != '/',
            decreases list@.len() - end,
        {
            end += 1;
        }
        proof {
            assert forall|i: int| 0 <= i < end - from implies #[trigger] rest[i] != '/' by {
                assert(list@[from + i] != '/');
            }
            lemma_name_end(rest, end - from);
            assert(rest.take(end - from) =~= list@.subrange(from as int, end as int));
        }
        let name = text_between(&list, from, end);
        let ghost before = names@;
        if name.as_str().unicode_len() > 0 && !same(name.as_str(), ".") {
            names.push(name);
            assert(views(names@) =~= views(before) + seq![rest.take(end - from)]);
        }
        if end >= list.len() {
            assert(path_names(rest) =~= (if rest.take(end - from).len() == 0 || rest.take(
                end - from,
            ) == "."@ {
                Seq::<Seq<char>>::empty()
            } else {
                seq![rest.take(end - from)]
            }));
            assert(views(names@) =~= all);
            break;
        }
        proof {
            assert(rest.skip(end - from + 1) =~= list@.skip(end + 1));
            assert(views(names@) + path_names(list@.skip(end + 1)) =~= all);
        }
        from = end + 1;
    }
    names
}

/// Whether everything below a directory may be deleted: its path is absolute, climbs nowhere, and
/// is neither the root nor the home of the user.
pub open spec fn safe_reset_target(home: Seq<char>, user_home: Option<Seq<char>>) -> bool {
    &&& home.len() > 0
    &&& home[0] == '/'
    &&& path_names(home).len() > 0
    &&& !path_names(home).contains(".."@)
    &&& !(user_home matches Some(own) && own.len() > 0 && own[0] == '/' && path_names(own)
        == path_names(home))
}

fn is_absolute(path: &str) -> (result: bool)
    ensures
        result == (path@.len() > 0 && path@[0] == '/'),
{
    path.unicode_len() > 0 && path.get_char(0) == '/'
}

fn same_names(left: &Vec<String>, right: &Vec<String>) -> (equal: bool)
    ensures
        equal == (views(left@) == views(right@)),
{
    if left.len() != right.len() {
        assert(views(left@).len() != views(right@).len());
        return false;
    }
    let mut place: usize = 0;
    while place < left.len()
        invariant
            place <= left@.len() == right@.len(),
            forall|i: int| 0 <= i < place ==> left@[i]@ == right@[i]@,
        decreases left@.len() - place,
    {
        if !same(left[place].as_str(), right[place].as_str()) {
            assert(views(left@)[place as int] != views(right@)[place as int]);
            return false;
        }
        place += 1;
    }
    assert(views(left@) =~= views(right@));
    true
}

/// Refuses to delete everything below a directory that is not the library's own.
pub fn ensure_safe_reset_target(home: &str, user_home: Option<&str>) -> (result: Result<
    (),
    TransferError,
>)
    ensures
        match result {
            Ok(_) => safe_reset_target(home@, own_home(user_home)),
            Err(error) => !safe_reset_target(home@, own_home(user_home)) && (error matches
                TransferError::UnsafeReset { home: refused } && refused@ == home@),
        },
{
    let names = names_along(home);
    let unsafe_target = !is_absolute(home) || names.len() == 0 || crate::config::has_text(
        &names,
        "..",
    ) || match user_home {
        Some(own) => is_absolute(own) && same_names(&names_along(own), &names),
        None => false,
    };
    assert(views(names@).len() == names@.len());
    if unsafe_target {
        Err(TransferError::UnsafeReset { home: home.to_owned() })
    } else {
        Ok(())
    }
}

/// The home of the user, if it is known.
pub open spec fn own_home(user_home: Option<&str>) -> Option<Seq<char>> {
    match user_home {
        Some(own) => Some(own@),
        None => None,
    }
}

/// What the user is asked before everything is deleted.
pub const RESET_QUESTION: &'static str =
    "全局配置已存在。重新初始化会永久删除全部全局模型配置和凭据。请输入 YES 确认完全重置：";

/// What the user is told when nothing was deleted.
pub const RESET_DECLINED: &'static str = "未重置全局配置。";

/// What the user is told, with the file behind it, when everything was deleted and set up anew.
pub const RESET_DONE: &'static str = "已完全重置全局配置：";

/// What the user is told, with the file behind it, when the models were set up.
pub const INIT_DONE: &'static str = "已初始化全局配置：";

/// The file that holds the models below a directory.
pub open spec fn models_file(home: Seq<char>) -> Seq<char> {
    joined(home, "conf.d/models.toml"@)
}

/// Decides how the models below the directory are set up: anew where there are none; where there
/// are some, only the answer `YES` has everything deleted first, and only a directory of the
/// library's own. The answer is `None` where nothing was asked because there are no models yet.
pub fn initialize_global(home: &str, answer: Option<&str>, user_home: Option<&str>) -> (result:
    Result<InitResult, TransferError>)
    ensures
        match answer {
            None => result matches Ok(init) && init.config_file@ == models_file(home@)
                && !init.reset && !init.cancelled,
            Some(given) => if trimmed(given@) != "YES"@ {
                result matches Ok(init) && init.config_file@ == models_file(home@) && !init.reset
                    && init.cancelled
            } else if safe_reset_target(home@, own_home(user_home)) {
                result matches Ok(init) && init.config_file@ == models_file(home@) && init.reset
                    && !init.cancelled
            } else {
                result matches Err(TransferError::UnsafeReset { home: refused }) && refused@
                    == home@
            },
        },
{
    let config_file = join_path(home, "conf.d/models.toml");
    match answer {
        None => Ok(InitResult { config_file, reset: false, cancelled: false }),
        Some(given) => {
            let given = trim(given);
            if !same(given.as_str(), "YES") {
                return Ok(InitResult { config_file, reset: false, cancelled: true });
            }
            match ensure_safe_reset_target(home, user_home) {
                Ok(()) => Ok(InitResult { config_file, reset: true, cancelled: false }),
                Err(error) => Err(error),
            }
        },
    }
}

/// What the user is told of the end of the setup.
pub open spec fn init_text(result: InitResult) -> Seq<char> {
    if result.cancelled {
        RESET_DECLINED@
    } else if result.reset {
        RESET_DONE@ + result.config_file@
    } else {
        INIT_DONE@ + result.config_file@
    }
}

/// What the user is told of the end of the setup.
pub fn init_message(result: &InitResult) -> (text: String)
    ensures
        text@ == init_text(*result),
{
    if result.cancelled {
        return RESET_DECLINED.to_owned();
    }
    let mut text = if result.reset {
        RESET_DONE.to_owned()
    } else {
        INIT_DONE.to_owned()
    };
    text.append(result.config_file.as_str());
    text
}

/// What is wrong with a login that is to be carried over.
pub open spec fn codex_problem(read: Option<JsonView>) -> Option<TransferError> {
    match read {
        None => Some(TransferError::CodexNotJson),
        Some(document) => if document is Object {
            None
        } else {
            Some(TransferError::CodexNotObject)
        },
    }
}

/// What is wrong with a login, once it is read.
pub fn check_codex_document(document: &Option<Json>) -> (problem: Option<TransferError>)
    ensures
        problem == codex_problem(
            match *document {
                Some(json) => Some(json@),
                None => None,
            },
        ),
{
    match document {
        None => Some(TransferError::CodexNotJson),
        Some(json) => if json.is_object() {
            None
        } else {
            Some(TransferError::CodexNotObject)
        },
    }
}

/// Takes a login for one if it is a JSON object.
pub fn validate_codex_auth(content: String) -> (result: Result<String, TransferError>)
    ensures
        match codex_problem(json_read(content@)) {
            Some(problem) => result == Err::<String, TransferError>(problem),
            None => result == Ok::<String, TransferError>(content),
        },
{
    let document = match parse_json(content.as_str()) {
        Ok(json) => Some(json),
        Err(_) => None,
    };
    match check_codex_document(&document) {
        Some(problem) => Err(problem),
        None => Ok(content),
    }
}

/// Where the credential of a model comes from.
#[derive(Debug)]
pub enum CredentialSource {
    Given(String),
    File(String),
    Absent,
}

/// Where the credential of a model comes from: its own key, else the variable that it names, else
/// the file that it names. Empty keys and variables do not count.
pub open spec fn credential_of(
    model: ModelView,
    variable: Option<Seq<char>>,
    source: CredentialSource,
) -> bool {
    if model.api_key matches Some(key) && key.len() > 0 {
        source matches CredentialSource::Given(given) && given@ == model.api_key->0
    } else if model.api_key_env is Some && (variable matches Some(value) && value.len() > 0) {
        source matches CredentialSource::Given(given) && given@ == variable->0
    } else if model.credential_file is Some {
        source matches CredentialSource::File(path) && path@ == model.credential_file->0
    } else {
        source is Absent
    }
}

/// Where the credential of the model comes from. The variable is the one that the model names.
pub fn effective_model_credential(model: &ModelConfig, variable: Option<String>) -> (source:
    CredentialSource)
    ensures
        credential_of(model@, text_in(variable), source),
{
    if let Some(key) = &model.api_key {
        if key.as_str().unicode_len() > 0 {
            return CredentialSource::Given(key.clone());
        }
    }
    if model.api_key_env.is_some() {
        if let Some(value) = variable {
            if value.as_str().unicode_len() > 0 {
                return CredentialSource::Given(value);
            }
        }
    }
    match &model.credential_file {
        Some(path) => CredentialSource::File(path.clone()),
        None => CredentialSource::Absent,
    }
}

/// The text of a file, where it holds any but white space.
pub open spec fn not_blank(text: Option<Seq<char>>) -> Option<Seq<char>> {
    match text {
        Some(found) => if is_blank(found) {
            None
        } else {
            Some(found)
        },
        None => None,
    }
}

/// The text of a file, where it holds any but white space.
pub fn kept_text(text: Option<String>) -> (kept: Option<String>)
    ensures
        text_in(kept) == not_blank(text_in(text)),
{
    match text {
        Some(found) => if blank(found.as_str()) {
            None
        } else {
            Some(found)
        },
        None => None,
    }
}

/// How many credentials there are among the first ones.
pub open spec fn credential_count(credentials: Seq<Option<String>>) -> nat
    decreases credentials.len(),
{
    if credentials.len() == 0 {
        0
    } else {
        credential_count(credentials.drop_last()) + (if credentials.last() is Some {
            1nat
        } else {
            0nat
        })
    }
}

proof fn lemma_credential_count(credentials: Seq<Option<String>>)
    ensures
        credential_count(credentials) <= credentials.len(),
    decreases credentials.len(),
{
    if credentials.len() > 0 {
        lemma_credential_count(credentials.drop_last());
    }
}

/// Whether an archive holds each model with its credential.
pub open spec fn archives_models(
    archived: Seq<ArchivedModel>,
    models: Seq<ModelConfig>,
    credentials: Seq<Option<String>>,
) -> bool {
    &&& archived.len() == models.len()
    &&& forall|i: int|
        0 <= i < models.len() ==> (#[trigger] archived[i]).config@ == models[i]@
            && archived[i].credential == credentials[i]
}

/// Puts the models, their credentials and the login, unless it is blank, into what an archive
/// holds, and says what will have been exported to a file of the directory.
pub fn export_models(
    global: &GlobalConfig,
    credentials: &Vec<Option<String>>,
    codex_text: Option<String>,
    exported_at_ms: u64,
    output_directory: &str,
    timestamp: &str,
) -> (result: Result<(ArchivePayload, ExportResult), TransferError>)
    requires
        credentials@.len() == global.models@.len(),
    ensures
        match not_blank(text_in(codex_text)) {
            Some(login) => codex_problem(json_read(login)) matches Some(problem) ==> result == Err::<
                (ArchivePayload, ExportResult),
                TransferError,
            >(problem),
            None => true,
        },
        match result {
            Ok((payload, export)) => {
                &&& not_blank(text_in(codex_text)) matches Some(login) ==> codex_problem(
                    json_read(login),
                ) is None
                &&& payload.version == PAYLOAD_VERSION
                &&& payload.exported_at_ms == exported_at_ms
                &&& payload.global_version == global.version
                &&& payload.default_model == global.default_model
                &&& archives_models(payload.models@, global.models@, credentials@)
                &&& text_in(payload.codex_auth) == not_blank(text_in(codex_text))
                &&& export.file@ == joined(output_directory@, "me-model-export-"@ + timestamp@)
                &&& export.models == global.models@.len()
                &&& export.model_credentials == credential_count(credentials@)
                &&& export.codex_credential == (not_blank(text_in(codex_text)) is Some)
            },
            Err(_) => not_blank(text_in(codex_text)) matches Some(login) && codex_problem(
                json_read(login),
            ) is Some,
        },
{
    let mut models: Vec<ArchivedModel> = Vec::new();
    let mut model_credentials: usize = 0;
    let mut place: usize = 0;
    assert(credentials@.take(0) =~= Seq::<Option<String>>::empty());
    while place < global.models.len()
        invariant
            place <= global.models@.len() == credentials@.len(),
            models@.len() == place,
            forall|i: int|
                0 <= i < place ==> (#[trigger] models@[i]).config@ == global.models@[i]@
                    && models@[i].credential == credentials@[i],
            model_credentials == credential_count(credentials@.take(place as int)),
            model_credentials <= place,
        decreases global.models@.len() - place,
    {
        assert(credentials@.take(place + 1).drop_last() =~= credentials@.take(place as int));
        let credential = copy_text(&credentials[place]);
        if credential.is_some() {
            model_credentials += 1;
        }
        models.push(ArchivedModel { config: global.models[place].copy(), credential });
        place += 1;
    }
    assert(credentials@.take(place as int) =~= credentials@);
    let codex_auth = match kept_text(codex_text) {
        Some(login) => match validate_codex_auth(login) {
            Ok(login) => Some(login),
            Err(problem) => return Err(problem),
        },
        None => None,
    };
    let codex_credential = codex_auth.is_some();
    let mut name = "me-model-export-".to_owned();
    name.append(timestamp);
    let payload = ArchivePayload {
        version: PAYLOAD_VERSION,
        exported_at_ms,
        global_version: global.version,
        default_model: global.default_model.clone(),
        models,
        codex_auth,
    };
    let export = ExportResult {
        file: join_path(output_directory, name.as_str()),
        models: global.models.len(),
        model_credentials,
        codex_credential,
    };
    Ok((payload, export))
}

/// The BLAKE3 digest of a text in lower-case hexadecimal.
pub uninterp spec fn digest(text: Seq<char>) -> Seq<char>;

/// `blake3::hash` of the bytes of the text, by `to_hex`: it is named.
#[verifier::external_body]
fn credential_digest(credential: &str) -> (hex: String)
    ensures
        hex@ == digest(credential@),
{
    blake3::hash(credential.as_bytes()).to_hex().to_string()
}

/// The file below a directory that keeps a credential with a digest.
pub open spec fn credential_file(home: Seq<char>, digest: Seq<char>) -> Seq<char> {
    joined(joined(home, "credentials"@), "model-credential-"@ + digest + ".key"@)
}

/// The file below the directory that keeps a credential with the digest.
pub fn credential_path(home: &str, digest: &str) -> (path: String)
    ensures
        path@ == credential_file(home@, digest@),
{
    let name = join3("model-credential-", digest, ".key");
    join_path(join_path(home, "credentials").as_str(), name.as_str())
}

/// A credential that is to be written to a file.
#[derive(Debug)]
pub struct CredentialWrite {
    pub path: String,
    pub content: String,
}

/// What the archive holds, with every credential moved to a file of its own.
#[derive(Debug)]
pub struct ImportedArchive {
    pub config: GlobalConfig,
    pub writes: Vec<CredentialWrite>,
    pub codex_auth: Option<String>,
}

/// An archived model below a directory: a credential is read from its file from now on, and a file
/// that did not come along is forgotten.
pub open spec fn restored(home: Seq<char>, archived: ArchivedModel) -> ModelView {
    match archived.credential {
        Some(credential) => ModelView {
            api_key: None,
            api_key_env: None,
            credential_file: Some(credential_file(home, digest(credential@))),
            ..archived.config@
        },
        None => ModelView { credential_file: None, ..archived.config@ },
    }
}

/// The files that the credentials of the first models go to. Of several for one file the first
/// counts.
pub open spec fn credential_files(
    home: Seq<char>,
    models: Seq<ArchivedModel>,
    count: int,
) -> Map<Seq<char>, Seq<char>>
    decreases count,
{
    if count <= 0 {
        Map::empty()
    } else {
        let before = credential_files(home, models, count - 1);
        match models[count - 1].credential {
            Some(credential) => {
                let path = credential_file(home, digest(credential@));
                if before.dom().contains(path) {
                    before
                } else {
                    before.insert(path, credential@)
                }
            },
            None => before,
        }
    }
}

/// The files that are to be written.
pub open spec fn writes_view(writes: Seq<CredentialWrite>) -> Map<Seq<char>, Seq<char>>
    decreases writes.len(),
{
    if writes.len() == 0 {
        Map::empty()
    } else {
        writes_view(writes.drop_last()).insert(writes.last().path@, writes.last().content@)
    }
}

/// Whether no file is written twice.
pub open spec fn distinct_paths(writes: Seq<CredentialWrite>) -> bool {
    forall|i: int, j: int|
        0 <= i < j < writes.len() ==> (#[trigger] writes[i]).path@ != (#[trigger] writes[j]).path@
}

proof fn lemma_writes(writes: Seq<CredentialWrite>, path: Seq<char>)
    ensures
        writes_view(writes).dom().contains(path) <==> exists|i: int|
            0 <= i < writes.len() && (#[trigger] writes[i]).path@ == path,
    decreases writes.len(),
{
    if writes.len() > 0 {
        let front = writes.drop_last();
        lemma_writes(front, path);
        if writes_view(writes).dom().contains(path) && writes.last().path@ != path {
            let i = choose|i: int| 0 <= i < front.len() && (#[trigger] front[i]).path@ == path;
            assert(writes[i].path@ == path);
        }
        if exists|i: int| 0 <= i < writes.len() && (#[trigger] writes[i]).path@ == path {
            let i = choose|i: int| 0 <= i < writes.len() && (#[trigger] writes[i]).path@ == path;
            if i < front.len() {
                assert(front[i].path@ == path);
            }
        }
    }
}

/// The first model of an archive with a blank credential among the first ones.
pub open spec fn blank_credential(models: Seq<ArchivedModel>, count: int) -> Option<Seq<char>>
    decreases count,
{
    if count <= 0 {
        None
    } else {
        match blank_credential(models, count - 1) {
            Some(name) => Some(name),
            None => match models[count - 1].credential {
                Some(credential) => if is_blank(credential@) {
                    Some(models[count - 1].config@.name)
                } else {
                    None
                },
                None => None,
            },
        }
    }
}

proof fn lemma_blank_stays(models: Seq<ArchivedModel>, early: int, late: int)
    requires
        early <= late,
        blank_credential(models, early) is Some,
    ensures
        blank_credential(models, late) == blank_credential(models, early),
    decreases late - early,
{
    if early < late {
        lemma_blank_stays(models, early, late - 1);
    }
}

/// What an archived model becomes below the directory, given the digest of its credential.
pub fn restored_model(home: &str, config: ModelConfig, digest: Option<&str>) -> (model: ModelConfig)
    ensures
        match digest {
            Some(hex) => model@ == (ModelView {
                api_key: None,
                api_key_env: None,
                credential_file: Some(credential_file(home@, hex@)),
                ..config@
            }),
            None => model@ == (ModelView { credential_file: None, ..config@ }),
        },
{
    let mut model = config;
    match digest {
        Some(hex) => {
            model.api_key = None;
            model.api_key_env = None;
            model.credential_file = Some(credential_path(home, hex));
        },
        None => {
            model.credential_file = None;
        },
    }
    model
}

fn note_write(writes: &mut Vec<CredentialWrite>, path: String, content: String)
    requires
        distinct_paths(old(writes)@),
    ensures
        distinct_paths(final(writes)@),
        writes_view(final(writes)@) == (if writes_view(old(writes)@).dom().contains(path@) {
            writes_view(old(writes)@)
        } else {
            writes_view(old(writes)@).insert(path@, content@)
        }),
        final(writes)@.len() <= old(writes)@.len() + 1,
{
    proof {
        lemma_writes(writes@, path@);
    }
    let mut place: usize = 0;
    while place < writes.len()
        invariant
            place <= writes@.len(),
            *writes == *old(writes),
            distinct_paths(writes@),
            forall|i: int| 0 <= i < place ==> (#[trigger] writes@[i]).path@ != path@,
        decreases writes@.len() - place,
    {
        if same(writes[place].path.as_str(), path.as_str()) {
            proof {
                lemma_writes(writes@, path@);
            }
            return ;
        }
        place += 1;
    }
    let ghost before = writes@;
    writes.push(CredentialWrite { path, content });
    assert(writes@.drop_last() =~= before);
}

/// Reads what an archive holds for the directory: the models with their credentials moved to
/// files, and the login.
pub fn archived_config(home: &str, payload: ArchivePayload) -> (result: Result<
    ImportedArchive,
    TransferError,
>)
    ensures
        match result {
            Ok(imported) => {
                &&& payload.version == PAYLOAD_VERSION
                &&& blank_credential(payload.models@, payload.models@.len() as int) is None
                &&& payload.codex_auth matches Some(login) ==> codex_problem(json_read(login@))
                    is None
                &&& imported.config.version == payload.global_version
                &&& imported.config.default_model == payload.default_model
                &&& models_view(imported.config.models@) == Seq::new(
                    payload.models@.len(),
                    |i: int| restored(home@, payload.models@[i]),
                )
                &&& writes_view(imported.writes@) == credential_files(
                    home@,
                    payload.models@,
                    payload.models@.len() as int,
                )
                &&& distinct_paths(imported.writes@)
                &&& imported.codex_auth == payload.codex_auth
            },
            Err(TransferError::UnsupportedPayload { version }) => payload.version
                != PAYLOAD_VERSION && version == payload.version,
            Err(TransferError::EmptyCredential { model }) => payload.version == PAYLOAD_VERSION
                && blank_credential(payload.models@, payload.models@.len() as int) == Some(model@),
            Err(problem) => {
                &&& payload.version == PAYLOAD_VERSION
                &&& blank_credential(payload.models@, payload.models@.len() as int) is None
                &&& payload.codex_auth matches Some(login) && codex_problem(json_read(login@))
                    == Some(problem)
            },
        },
{
    if payload.version != PAYLOAD_VERSION {
        return Err(TransferError::UnsupportedPayload { version: payload.version });
    }
    let ghost count = payload.models@.len() as int;
    let mut models: Vec<ModelConfig> = Vec::new();
    let mut writes: Vec<CredentialWrite> = Vec::new();
    let mut place: usize = 0;
    while place < payload.models.len()
        invariant
            place <= payload.models@.len(),
            payload.version == PAYLOAD_VERSION,
            count == payload.models@.len(),
            models@.len() == place,
            forall|i: int|
                0 <= i < place ==> (#[trigger] models@[i])@ == restored(home@, payload.models@[i]),
            writes_view(writes@) == credential_files(home@, payload.models@, place as int),
            distinct_paths(writes@),
            blank_credential(payload.models@, place as int) is None,
        decreases payload.models@.len() - place,
    {
        let config = payload.models[place].config.copy();
        let model = match &payload.models[place].credential {
            Some(credential) => {
                if blank(credential.as_str()) {
                    proof {
                        lemma_blank_stays(payload.models@, place + 1, count);
                    }
                    return Err(TransferError::EmptyCredential { model: config.name });
                }
                let hex = credential_digest(credential.as_str());
                let path = credential_path(home, hex.as_str());
                note_write(&mut writes, path, credential.clone());
                restored_model(home, config, Some(hex.as_str()))
            },
            None => restored_model(home, config, None),
        };
        models.push(model);
        place += 1;
    }
    let codex_auth = match payload.codex_auth {
        Some(login) => match validate_codex_auth(login) {
            Ok(login) => Some(login),
            Err(problem) => return Err(problem),
        },
        None => None,
    };
    assert(models_view(models@) =~= Seq::new(
        payload.models@.len(),
        |i: int| restored(home@, payload.models@[i]),
    ));
    Ok(
        ImportedArchive {
            config: GlobalConfig {
                version: payload.global_version,
                default_model: payload.default_model,
                models,
            },
            writes,
            codex_auth,
        },
    )
}

/// The models after the first imported ones have come in: one of a known name takes the place of
/// the first that has it, another comes last.
pub open spec fn merged_models(
    existing: Seq<ModelView>,
    imported: Seq<ModelView>,
    count: int,
) -> Seq<ModelView>
    decreases count,
{
    if count <= 0 {
        existing
    } else {
        let before = merged_models(existing, imported, count - 1);
        match model_place(before, imported[count - 1].name) {
            Some(place) => before.update(place, imported[count - 1]),
            None => before.push(imported[count - 1]),
        }
    }
}

/// How many of the first imported models have a name that was not known.
pub open spec fn added_models(
    existing: Seq<ModelView>,
    imported: Seq<ModelView>,
    count: int,
) -> nat
    decreases count,
{
    if count <= 0 {
        0
    } else {
        added_models(existing, imported, count - 1) + (if model_place(
            merged_models(existing, imported, count - 1),
            imported[count - 1].name,
        ) is None {
            1nat
        } else {
            0nat
        })
    }
}

/// Every imported model is either added or takes the place of another, and only those that are
/// added make the list longer.
pub proof fn law_import_counts(existing: Seq<ModelView>, imported: Seq<ModelView>, count: int)
    requires
        0 <= count <= imported.len(),
    ensures
        added_models(existing, imported, count) <= count,
        merged_models(existing, imported, count).len() == existing.len() + added_models(
            existing,
            imported,
            count,
        ),
    decreases count,
{
    if count > 0 {
        law_import_counts(existing, imported, count - 1);
        lemma_model_place(
            merged_models(existing, imported, count - 1),
            imported[count - 1].name,
        );
    }
}

/// A model whose name does not come in stays as it is, where it is.
pub proof fn law_import_keeps_other_models(
    existing: Seq<ModelView>,
    imported: Seq<ModelView>,
    count: int,
    place: int,
)
    requires
        0 <= count <= imported.len(),
        0 <= place < existing.len(),
        forall|i: int| 0 <= i < count ==> (#[trigger] imported[i]).name != existing[place].name,
    ensures
        place < merged_models(existing, imported, count).len(),
        merged_models(existing, imported, count)[place] == existing[place],
    decreases count,
{
    if count > 0 {
        law_import_keeps_other_models(existing, imported, count - 1, place);
        let before = merged_models(existing, imported, count - 1);
        lemma_model_place(before, imported[count - 1].name);
        assert(imported[count - 1].name != existing[place].name);
    }
}

/// Whether no two models have the same name.
pub open spec fn distinct_names(models: Seq<ModelView>) -> bool {
    forall|i: int, j: int|
        0 <= i < j < models.len() ==> (#[trigger] models[i]).name != (#[trigger] models[j]).name
}

/// Names that were distinct stay so.
pub proof fn law_import_keeps_names_distinct(
    existing: Seq<ModelView>,
    imported: Seq<ModelView>,
    count: int,
)
    requires
        0 <= count <= imported.len(),
        distinct_names(existing),
    ensures
        distinct_names(merged_models(existing, imported, count)),
    decreases count,
{
    if count > 0 {
        law_import_keeps_names_distinct(existing, imported, count - 1);
        let before = merged_models(existing, imported, count - 1);
        let next = imported[count - 1];
        lemma_model_place(before, next.name);
        let after = merged_models(existing, imported, count);
        assert forall|i: int, j: int| 0 <= i < j < after.len() implies (#[trigger] after[i]).name
            != (#[trigger] after[j]).name by {
            match model_place(before, next.name) {
                Some(place) => {
                    assert(after[i].name == before[i].name);
                    assert(after[j].name == before[j].name);
                },
                None => {
                    if j < before.len() {
                        assert(after[j] == before[j]);
                    }
                    assert(after[i] == before[i]);
                },
            }
        }
    }
}

/// The last model that comes in under a name is the one that is there afterwards under it.
pub proof fn law_import_brings_every_model(
    existing: Seq<ModelView>,
    imported: Seq<ModelView>,
    count: int,
    which: int,
)
    requires
        0 <= which < count <= imported.len(),
        forall|i: int| which < i < count ==> (#[trigger] imported[i]).name != imported[which].name,
    ensures
        match model_place(merged_models(existing, imported, count), imported[which].name) {
            Some(place) => merged_models(existing, imported, count)[place] == imported[which],
            None => false,
        },
    decreases count,
{
    let before = merged_models(existing, imported, count - 1);
    let after = merged_models(existing, imported, count);
    let name = imported[which].name;
    lemma_model_place(before, imported[count - 1].name);
    lemma_model_place(after, name);
    lemma_model_place(before, name);
    if which < count - 1 {
        law_import_brings_every_model(existing, imported, count - 1, which);
        assert(imported[count - 1].name != name);
        let place = model_place(before, name)->0;
        assert(after[place] == before[place]);
        let found = model_place(after, name)->0;
        assert(found <= place);
        if found < place {
            assert(before[found].name != name);
            assert(after[found].name == before[found].name);
        }
    } else {
        match model_place(before, name) {
            Some(place) => {
                assert(after[place] == imported[which]);
                let found = model_place(after, name)->0;
                if found < place {
                    assert(after[found] == before[found]);
                }
            },
            None => {
                let found = model_place(after, name)->0;
                assert(after[before.len() as int] == imported[which]);
                if found < before.len() {
                    assert(after[found] == before[found]);
                }
            },
        }
    }
}

/// What is to be done to bring an archive in.
#[derive(Debug)]
pub struct ImportPlan {
    pub config: GlobalConfig,
    pub writes: Vec<CredentialWrite>,
    pub codex_write: Option<String>,
    pub result: ImportResult,
}

/// Merges the models of an archive into those that there are, if any. The default of the archive
/// becomes the default; its login is only taken where there is none.
pub fn import_models(
    home: &str,
    imported: ImportedArchive,
    existing: Option<GlobalConfig>,
    has_codex_auth: bool,
) -> (result: Result<ImportPlan, TransferError>)
    requires
        existing matches Some(present) ==> present.models@.len() + imported.config.models@.len()
            <= usize::MAX,
    ensures
        ({
            let there = match existing {
                Some(present) => models_view(present.models@),
                None => Seq::<ModelView>::empty(),
            };
            let coming = models_view(imported.config.models@);
            match result {
                Ok(plan) => {
                    &&& existing matches Some(present) ==> present.version
                        == imported.config.version
                    &&& plan.config.version == imported.config.version
                    &&& plan.config.default_model == imported.config.default_model
                    &&& models_view(plan.config.models@) == merged_models(
                        there,
                        coming,
                        coming.len() as int,
                    )
                    &&& plan.writes == imported.writes
                    &&& plan.codex_write == (if has_codex_auth {
                        None
                    } else {
                        imported.codex_auth
                    })
                    &&& plan.result.config_file@ == models_file(home@)
                    &&& plan.result.added == added_models(there, coming, coming.len() as int)
                    &&& plan.result.added + plan.result.overwritten == coming.len()
                    &&& plan.result.model_credentials == imported.writes@.len()
                    &&& plan.result.codex_credential == plan.codex_write.is_some()
                    &&& plan.result.default_model == imported.config.default_model
                },
                Err(error) => existing matches Some(present) && present.version
                    != imported.config.version && error == (TransferError::VersionMismatch {
                    imported: imported.config.version,
                    existing: present.version,
                }),
            }
        }),
{
    let (version, mut models) = match existing {
        Some(present) => (present.version, present.models),
        None => {
            let none: Vec<ModelConfig> = Vec::new();
            (imported.config.version, none)
        },
    };
    if version != imported.config.version {
        return Err(
            TransferError::VersionMismatch { imported: imported.config.version, existing: version },
        );
    }
    let ghost there = models_view(models@);
    let ghost coming = models_view(imported.config.models@);
    assert(existing is None ==> there =~= Seq::<ModelView>::empty());
    let mut added: usize = 0;
    let mut overwritten: usize = 0;
    let mut place: usize = 0;
    while place < imported.config.models.len()
        invariant
            place <= imported.config.models@.len(),
            coming == models_view(imported.config.models@),
            models_view(models@) == merged_models(there, coming, place as int),
            models@.len() <= there.len() + place,
            there.len() + imported.config.models@.len() <= usize::MAX || there.len() == 0,
            added == added_models(there, coming, place as int),
            added + overwritten == place,
        decreases imported.config.models@.len() - place,
    {
        let model = imported.config.models[place].copy();
        assert(model@ == coming[place as int]);
        let ghost before = models@;
        match find_model(&models, model.name.as_str()) {
            Some(found) => {
                models[found] = model;
                assert(models_view(models@) =~= models_view(before).update(
                    found as int,
                    coming[place as int],
                ));
                overwritten += 1;
            },
            None => {
                models.push(model);
                assert(models_view(models@) =~= models_view(before).push(coming[place as int]));
                added += 1;
            },
        }
        place += 1;
    }
    let codex_write = if has_codex_auth {
        None
    } else {
        imported.codex_auth
    };
    let result = ImportResult {
        config_file: join_path(home, "conf.d/models.toml"),
        added,
        overwritten,
        model_credentials: imported.writes.len(),
        codex_credential: codex_write.is_some(),
        default_model: imported.config.default_model.clone(),
    };
    Ok(
        ImportPlan {
            config: GlobalConfig { version, default_model: imported.config.default_model, models },
            writes: imported.writes,
            codex_write,
            result,
        },
    )
}

} // verus!
