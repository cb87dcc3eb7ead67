use me::archive::{
    archive_header, check_header, decrypt, decrypt_with, encrypt, encrypt_with, read_u32,
    validate_password, ArchiveError,
};
use me::config::{GlobalConfig, ModelCapabilities, ModelConfig, ProviderType};
use me::json::Json;
use me::transfer::{
    archived_config, credential_path, effective_model_credential, ensure_safe_reset_target,
    export_models, import_models, init_message, initialize_global, ArchivePayload,
    CredentialSource, TransferError,
};

fn model(name: &str) -> ModelConfig {
    ModelConfig {
        name: name.into(),
        provider: ProviderType::OpenaiCompatible,
        reserve_output_context: true,
        base_url: "https://example.invalid/v1".into(),
        endpoint: "/chat/completions".into(),
        api_key: None,
        api_key_env: None,
        credential_file: None,
        model: "m".into(),
        source_url: None,
        timeout_seconds: 1,
        capabilities: ModelCapabilities {
            context_window: 1,
            max_output_tokens: None,
            reasoning_efforts: vec!["unset".into()],
            input_modalities: vec!["text".into()],
        },
        parameters: Json::object(),
        effort_parameters: Json::object(),
    }
}

fn global(names: &[&str]) -> GlobalConfig {
    GlobalConfig {
        version: 1,
        default_model: names[0].into(),
        models: names.iter().map(|name| model(name)).collect(),
    }
}

fn payload(names: &[&str], credentials: Vec<Option<String>>, login: Option<&str>) -> ArchivePayload {
    export_models(
        &global(names),
        &credentials,
        login.map(str::to_owned),
        17,
        "/out",
        "20260102-030405",
    )
    .unwrap()
    .0
}

#[test]
fn archives_open_with_their_password_alone() {
    let file = encrypt(b"models", "secret").unwrap();
    assert!(check_header(&file).is_none());
    assert!(!file.windows(6).any(|part| part == b"models"));
    assert_eq!(decrypt(&file, "secret").unwrap(), b"models");
    assert!(matches!(decrypt(&file, "other"), Err(ArchiveError::WrongPasswordOrDamaged)));

    let mut damaged = file.clone();
    let last = damaged.len() - 1;
    damaged[last] ^= 1;
    assert!(matches!(decrypt(&damaged, "secret"), Err(ArchiveError::WrongPasswordOrDamaged)));
    assert_ne!(encrypt(b"models", "secret").unwrap(), file);
}

#[test]
fn archives_need_a_password_and_a_header() {
    assert!(matches!(validate_password(""), Err(ArchiveError::EmptyPassword)));
    assert!(validate_password("secret").is_ok());
    assert!(matches!(decrypt(b"models", "secret"), Err(ArchiveError::NotAnArchive)));

    let mut file = archive_header(&[1; 16], &[2; 24]);
    file.extend_from_slice(&[0; 16]);
    assert_eq!(read_u32(&file, 16), Some(1));
    assert_eq!(read_u32(&file, file.len()), None);
    file[16] = 9;
    assert!(matches!(
        decrypt(&file, "secret"),
        Err(ArchiveError::UnsupportedFile { version }) if version == 9
    ));
    file[16] = 1;
    file[20] = 0xff;
    file[21] = 0xff;
    file[22] = 0xff;
    file[23] = 0xff;
    assert!(matches!(decrypt(&file, "secret"), Err(ArchiveError::UnsafeParameters)));
    assert_eq!(
        ArchiveError::UnsupportedFile { version: 9 }.message(),
        "unsupported model export file version 9"
    );
}

#[test]
fn exported_models_come_back_with_credentials_in_files() {
    let payload = payload(&["a", "b"], vec![Some("key".into()), None], Some("{\"tokens\":{}}"));
    assert_eq!(payload.exported_at_ms, 17);
    assert_eq!(payload.models.len(), 2);
    assert_eq!(payload.codex_auth.as_deref(), Some("{\"tokens\":{}}"));

    let imported = archived_config("/home/u/.me", payload).unwrap();
    assert_eq!(imported.writes.len(), 1);
    assert_eq!(imported.writes[0].content, "key");
    let digest = blake3::hash(b"key").to_hex().to_string();
    assert_eq!(imported.writes[0].path, credential_path("/home/u/.me", &digest));
    assert_eq!(
        imported.config.models[0].credential_file.as_deref(),
        Some(imported.writes[0].path.as_str())
    );
    assert_eq!(imported.config.models[1].credential_file, None);

    let plan = import_models("/home/u/.me", imported, Some(global(&["b", "c"])), false).unwrap();
    let names: Vec<&str> = plan.config.models.iter().map(|model| model.name.as_str()).collect();
    assert_eq!(names, vec!["b", "c", "a"]);
    assert_eq!(plan.result.added, 1);
    assert_eq!(plan.result.overwritten, 1);
    assert_eq!(plan.result.model_credentials, 1);
    assert!(plan.result.codex_credential);
    assert_eq!(plan.config.default_model, "a");
}

#[test]
fn archives_that_do_not_fit_are_refused() {
    let mut later = payload(&["a"], vec![None], None);
    later.version = 2;
    assert!(matches!(
        archived_config("/h", later),
        Err(TransferError::UnsupportedPayload { version: 2 })
    ));
    let mut blank = payload(&["a"], vec![None], None);
    blank.models[0].credential = Some("  ".into());
    assert!(matches!(
        archived_config("/h", blank),
        Err(TransferError::EmptyCredential { model }) if model == "a"
    ));
    let login = |text: &str| {
        export_models(&global(&["a"]), &vec![None], Some(text.into()), 0, "/out", "t").unwrap_err()
    };
    assert!(matches!(login("{"), TransferError::CodexNotJson));
    assert!(matches!(login("[]"), TransferError::CodexNotObject));

    let imported = archived_config("/h", payload(&["a"], vec![None], None)).unwrap();
    let mut newer = global(&["b"]);
    newer.version = 3;
    assert!(matches!(
        import_models("/h", imported, Some(newer), true),
        Err(TransferError::VersionMismatch { imported: 1, existing: 3 })
    ));
}

#[test]
fn credentials_come_from_the_first_place_that_has_one() {
    let mut config = model("a");
    assert!(matches!(effective_model_credential(&config, None), CredentialSource::Absent));
    config.credential_file = Some("/key".into());
    assert!(matches!(
        effective_model_credential(&config, None),
        CredentialSource::File(path) if path == "/key"
    ));
}

#[test]
fn models_are_set_up_anew_only_when_the_user_says_so() {
    let fresh = initialize_global("/home/u/.me", None, Some("/home/u")).unwrap();
    assert!(!fresh.reset && !fresh.cancelled);
    let kept = initialize_global("/home/u/.me", Some("yes\n"), Some("/home/u")).unwrap();
    assert!(kept.cancelled);
    let reset = initialize_global("/home/u/.me", Some(" YES\n"), Some("/home/u")).unwrap();
    assert!(reset.reset);
    assert_ne!(init_message(&kept), init_message(&reset));
    assert!(matches!(
        initialize_global("/home/u", Some(" YES\n"), Some("/home/u")),
        Err(TransferError::UnsafeReset { home }) if home == "/home/u"
    ));
    assert!(ensure_safe_reset_target("/", None).is_err());
    assert!(ensure_safe_reset_target("/home/u/.me", Some("/home/u")).is_ok());
}

#[test]
fn archives_are_made_and_opened_by_their_key() {
    let key = || Ok(vec![7; 32]);
    let file = encrypt_with(b"models", &[1; 16], &[2; 24], key()).unwrap();
    assert_eq!(file.len(), 72 + 6 + 16);
    assert_eq!(file[..72], archive_header(&[1; 16], &[2; 24])[..]);
    assert_ne!(&file[72..78], b"models");
    assert_eq!(decrypt_with(&file, key()).unwrap(), b"models");
    assert_eq!(encrypt_with(b"models", &[1; 16], &[2; 24], key()).unwrap(), file);

    assert!(matches!(
        encrypt_with(b"models", &[1; 16], &[2; 24], Err("no memory".into())),
        Err(ArchiveError::KeyDerivation { reason }) if reason == "no memory"
    ));
    assert!(matches!(
        decrypt_with(&file, Err("no memory".into())),
        Err(ArchiveError::KeyDerivation { reason }) if reason == "no memory"
    ));
    assert!(matches!(
        decrypt_with(b"models", Err("no memory".into())),
        Err(ArchiveError::NotAnArchive)
    ));
    assert!(matches!(
        decrypt_with(&file, Ok(vec![8; 32])),
        Err(ArchiveError::WrongPasswordOrDamaged)
    ));
    for place in [16, 40, 72, file.len() - 16, file.len() - 1] {
        let mut damaged = file.clone();
        damaged[place] ^= 0x80;
        assert!(decrypt_with(&damaged, key()).is_err());
    }
}
