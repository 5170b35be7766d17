//! The access password and the files that hold secrets.

use opaque_ke::errors::InternalError;
use opaque_ke::generic_array::{ArrayLength, GenericArray};
use opaque_ke::ksf::Ksf;
use opaque_ke::{ClientLogin, ClientLoginFinishParameters, CredentialResponse, Identifiers};
use rand_core::OsRng;
use rcdesk_host::access::{
    login_start, register, settled, validate_password, AccessError, AccessRecord,
    AccessRecordFile, AccessStore, CustomKsf, ARGON2_M_COST_KIB, ARGON2_P_COST, ARGON2_T_COST,
};
use rcdesk_host::device::{DeviceCredentials, DeviceStore};
use rcdesk_host::fsutil::{removed, write_private_atomic, FileRead, Removal, WriteStep};
use rcdesk_host::opaque::RcdeskCipherSuite;

#[test]
fn validate_password_rules() {
    assert!(validate_password("correct horse").is_ok());
    assert!(validate_password("short7").is_err());
    assert!(validate_password(" leadingspace1").is_err());
    assert!(validate_password("trailingspace1 ").is_err());
    assert!(validate_password(&"a".repeat(128)).is_ok());
    assert!(validate_password(&"a".repeat(129)).is_err());
}

#[test]
fn password_problems_are_told_apart() {
    assert_eq!(
        validate_password(" a").unwrap_err(),
        "Пароль не должен начинаться или заканчиваться пробелом"
    );
    assert_eq!(
        validate_password("").unwrap_err(),
        "Пароль должен содержать не менее 8 символов"
    );
    assert_eq!(
        validate_password(&"a".repeat(129)).unwrap_err(),
        "Пароль должен содержать не более 128 символов"
    );
    // Characters are counted, not bytes.
    assert!(validate_password("пароль12").is_ok());
    assert!(validate_password("\u{a0}пароль12").is_err());
}

#[test]
fn custom_ksf_default_matches_documented_params() {
    let default_ksf = CustomKsf::default();
    let explicit_ksf =
        CustomKsf::with_costs(ARGON2_M_COST_KIB, ARGON2_T_COST, ARGON2_P_COST).unwrap();

    let input = [0u8; 64];
    let a = default_ksf.hash(&input).unwrap();
    let b = explicit_ksf.hash(&input).unwrap();
    assert_eq!(a, b);

    let params = argon2::ParamsBuilder::new()
        .m_cost(65536)
        .t_cost(3)
        .p_cost(4)
        .build()
        .unwrap();
    let argon = argon2::Argon2::new(argon2::Algorithm::Argon2id, argon2::Version::V0x13, params);
    let mut expected = [0u8; 64];
    argon
        .hash_password_into(&input, &[0; argon2::RECOMMENDED_SALT_LEN], &mut expected)
        .unwrap();
    assert_eq!(a, expected);
}

/// The client's stretching function: that of the library.
#[derive(Default)]
struct Stretch(CustomKsf);

impl Ksf for Stretch {
    fn hash<L: ArrayLength<u8>>(
        &self,
        input: GenericArray<u8, L>,
    ) -> Result<GenericArray<u8, L>, InternalError> {
        let out = self.0.hash(&input).ok_or(InternalError::KsfError)?;
        Ok(GenericArray::clone_from_slice(&out))
    }
}

#[test]
fn register_then_login_with_the_same_password_yields_equal_session_keys() {
    let password = "correct horse battery staple";
    let record = register(password).unwrap();
    // The record is stored and read back first.
    let (file, _) = AccessStore::new("/data", false).save(&record);
    let record = AccessRecord::from_file(&file).expect("a record");

    let mut rng = OsRng;
    let client_start = ClientLogin::<RcdeskCipherSuite<Stretch>>::start(&mut rng, password.as_bytes()).unwrap();
    let request_bytes = client_start.message.serialize();

    let (login_server, response_bytes) = login_start(&record, &request_bytes).ok().unwrap();
    let response = CredentialResponse::<RcdeskCipherSuite<Stretch>>::deserialize(&response_bytes).unwrap();

    let ksf = Stretch::default();
    let client_finish = client_start
        .state
        .finish(
            &mut rng,
            password.as_bytes(),
            response,
            ClientLoginFinishParameters::new(None, Identifiers::default(), Some(&ksf)),
        )
        .unwrap();

    let server_session = login_server
        .login_finish(&client_finish.message.serialize())
        .ok()
        .unwrap();

    assert_eq!(server_session.as_bytes().len(), 64);
    assert_eq!(server_session.as_bytes(), &client_finish.session_key[..]);
}

#[test]
fn login_with_a_wrong_password_fails() {
    let record = register("correct horse battery staple").unwrap();

    let mut rng = OsRng;
    let client_start = ClientLogin::<RcdeskCipherSuite<Stretch>>::start(&mut rng, b"wrong password").unwrap();
    let request_bytes = client_start.message.serialize();

    let (_login_server, response_bytes) = login_start(&record, &request_bytes).ok().unwrap();
    let response = CredentialResponse::<RcdeskCipherSuite<Stretch>>::deserialize(&response_bytes).unwrap();

    let ksf = Stretch::default();
    let result = client_start.state.finish(
        &mut rng,
        b"wrong password",
        response,
        ClientLoginFinishParameters::new(None, Identifiers::default(), Some(&ksf)),
    );

    assert!(result.is_err());
}

#[test]
fn a_login_ends_with_the_expected_code_only() {
    let record = register("correct horse battery staple").unwrap();
    let client = ClientLogin::<RcdeskCipherSuite<Stretch>>::start(&mut OsRng, b"anything").unwrap();
    let request = client.message.serialize();

    let (server, response) = login_start(&record, &request).ok().unwrap();
    assert!(CredentialResponse::<RcdeskCipherSuite<Stretch>>::deserialize(&response).is_ok());
    assert_eq!(server.login_finish(&[0; 64]).err(), Some(AccessError::LoginEnd));

    let (server, _) = login_start(&record, &request).ok().unwrap();
    assert_eq!(server.login_finish(&[0; 63]).err(), Some(AccessError::Finalization));
}

#[test]
fn a_login_names_the_part_that_does_not_read() {
    let record = register("correct horse battery staple").unwrap();
    let client = ClientLogin::<RcdeskCipherSuite<Stretch>>::start(&mut OsRng, b"anything").unwrap();
    let request = client.message.serialize();

    let no_setup = AccessRecord::new(vec![0; 10], record.registration().to_vec());
    assert_eq!(login_start(&no_setup, &request).err(), Some(AccessError::ServerSetup));
    let no_registration = AccessRecord::new(record.server_setup().to_vec(), vec![0; 192]);
    assert_eq!(
        login_start(&no_registration, &request).err(),
        Some(AccessError::Registration)
    );
    assert_eq!(
        login_start(&record, b"no request").err(),
        Some(AccessError::CredentialRequest)
    );
    assert!(login_start(&record, &request).is_ok());
}

#[test]
fn a_client_with_default_parameters_logs_in() {
    let password = "correct horse battery staple";
    let record = register(password).unwrap();
    let client =
        ClientLogin::<RcdeskCipherSuite<Stretch>>::start(&mut OsRng, password.as_bytes()).unwrap();
    let (server, response) = login_start(&record, &client.message.serialize()).ok().unwrap();
    let response =
        CredentialResponse::<RcdeskCipherSuite<Stretch>>::deserialize(&response).unwrap();
    let params = ClientLoginFinishParameters::default();
    let done = client.state.finish(&mut OsRng, password.as_bytes(), response, params).unwrap();
    let key = server.login_finish(&done.message.serialize()).ok().unwrap();
    assert_eq!(key.as_bytes(), &done.session_key[..]);
}

#[test]
fn two_registrations_share_nothing() {
    let first = register("correct horse battery staple").unwrap();
    let second = register("correct horse battery staple").unwrap();
    assert_eq!(first.server_setup().len(), 128);
    assert_eq!(first.registration().len(), 192);
    assert_ne!(first.server_setup(), second.server_setup());
    assert_ne!(first.registration(), second.registration());
}

#[test]
fn a_step_that_fails_is_named() {
    assert_eq!(settled(Some(3), AccessError::LoginBegin), Ok(3));
    let steps = [
        (AccessError::RegistrationBegin, "opaque client registration start failed"),
        (AccessError::RegistrationAnswer, "opaque server registration start failed"),
        (AccessError::RegistrationSeal, "opaque client registration finish failed"),
        (AccessError::ServerSetup, "failed to deserialize server setup"),
        (AccessError::Registration, "failed to deserialize server registration"),
        (AccessError::CredentialRequest, "failed to deserialize credential request"),
        (AccessError::LoginBegin, "opaque server login start failed"),
        (AccessError::Finalization, "failed to deserialize credential finalization"),
        (AccessError::LoginEnd, "opaque server login finish failed"),
    ];
    for (step, message) in steps {
        assert_eq!(settled(None::<u8>, step), Err(step));
        assert_eq!(step.message(), message);
    }
}

#[test]
fn costs_change_the_stretched_key() {
    let cheap = CustomKsf::with_costs(32, 1, 1).unwrap();
    let dearer = CustomKsf::with_costs(32, 2, 1).unwrap();
    let input = [7u8; 16];
    let out = cheap.hash(&input).unwrap();
    assert_eq!(out.len(), 16);
    assert_ne!(out, input);
    assert_ne!(out, dearer.hash(&input).unwrap());
    assert_ne!(out, cheap.hash(&[8u8; 16]).unwrap());
    // Argon2 gives four bytes at least.
    assert_eq!(cheap.hash(&[1, 2, 3]), None);
}

#[test]
fn costs_out_of_range_are_refused() {
    assert_eq!(CustomKsf::with_costs(31, 1, 4), None);
    assert_eq!(CustomKsf::with_costs(32, 0, 4), None);
    assert_eq!(CustomKsf::with_costs(32, 1, 0), None);
    assert_eq!(CustomKsf::with_costs(u32::MAX, 1, 0x100_0000), None);
    assert!(CustomKsf::with_costs(32, 1, 4).is_some());
}

#[test]
fn access_store_round_trips_and_clears() {
    let store = AccessStore::new("/data", false);
    assert_eq!(store.path(), "/data/access.json");
    assert_eq!(AccessStore::new("C:\\data", true).path(), "C:\\data\\access.json");
    let record = register("correct horse battery staple").unwrap();

    let (file, _) = store.save(&record);
    let (loaded, warning) = store.load(FileRead::Parsed(file));
    let loaded = loaded.expect("a record");
    assert!(loaded == record);
    assert_eq!(loaded.server_setup(), record.server_setup());
    assert_eq!(loaded.registration(), record.registration());
    assert_eq!(warning, None);

    let plain = AccessRecord::new(vec![1, 2, 250, 255], vec![9; 40]);
    let loaded = store.load(FileRead::Parsed(store.save(&plain).0)).0.expect("a record");
    assert_eq!(loaded.server_setup(), [1, 2, 250, 255]);
    assert_eq!(loaded.registration(), [9; 40]);

    assert_eq!(store.clear(Removal::Removed), Ok(()));
    assert!(store.load(FileRead::Missing).0.is_none());
    assert_eq!(store.clear(Removal::Missing), Ok(()));
}

#[test]
fn records_are_stored_as_url_safe_base64() {
    let record = AccessRecord::new(vec![0xfb, 0xff], vec![]);
    let file = AccessRecordFile::of(&record);
    assert_eq!(file.server_setup, "-_8");
    assert_eq!(file.registration, "");
}

#[test]
fn load_with_garbage_instead_of_json_returns_none() {
    let store = AccessStore::new("/data", false);
    let (record, warning) = store.load(FileRead::Malformed);
    assert!(record.is_none());
    assert_eq!(
        warning,
        Some("access record file is not valid JSON, treating as no password set")
    );
}

#[test]
fn every_damage_of_a_record_counts_as_no_password() {
    let store = AccessStore::new("/data", false);
    let (record, warning) = store.load(FileRead::Unreadable);
    assert!(record.is_none());
    assert_eq!(
        warning,
        Some("failed to read access record file, treating as no password set")
    );
    assert_eq!(store.load(FileRead::Missing).1, None);
    for bad in ["*", "AA==", "AB"] {
        let file = AccessRecordFile {
            server_setup: bad.to_string(),
            registration: "AA".to_string(),
        };
        let (record, warning) = store.load(FileRead::Parsed(file));
        assert!(record.is_none(), "{bad}");
        assert_eq!(
            warning,
            Some("access record file has invalid base64, treating as no password set")
        );
    }
}

fn credentials() -> DeviceCredentials {
    DeviceCredentials {
        device_id: "dev-123".to_string(),
        secret: "s3cret".to_string(),
    }
}

#[test]
fn save_then_load_round_trips_the_same_credentials() {
    let store = DeviceStore::new("/data/", false);
    assert_eq!(store.path(), "/data/device.json");
    let (loaded, warning) = store.load(FileRead::Parsed(credentials()));
    assert_eq!(loaded, Some(credentials()));
    assert_eq!(warning, None);
}

#[test]
fn load_in_an_empty_directory_returns_none() {
    let store = DeviceStore::new("/data", false);
    assert_eq!(store.load(FileRead::Missing), (None, None));
}

#[test]
fn load_with_garbage_instead_of_json_returns_none_and_keeps_the_file() {
    let store = DeviceStore::new("/data", false);
    let (loaded, warning) = store.load(FileRead::Malformed);
    assert_eq!(loaded, None);
    assert_eq!(
        warning,
        Some("device credentials file is not valid JSON, registering as a new device")
    );
    let (loaded, warning) = store.load(FileRead::Unreadable);
    assert_eq!(loaded, None);
    assert_eq!(
        warning,
        Some("failed to read device credentials file, registering as a new device")
    );
}

#[test]
fn forget_removes_the_file_and_a_second_forget_is_not_an_error() {
    let store = DeviceStore::new("/data", false);
    assert_eq!(store.forget(Removal::Removed), Ok(()));
    assert_eq!(store.forget(Removal::Missing), Ok(()));
    let failed = || Removal::Failed("denied".to_string());
    assert_eq!(store.forget(failed()), Err("denied".to_string()));
    assert_eq!(removed(failed()), Err("denied".to_string()));
}

#[test]
fn secrets_are_written_aside_and_moved_into_place() {
    let steps = write_private_atomic("/data", "/data/access.json");
    assert_eq!(
        steps,
        vec![
            WriteStep::CreateDir("/data".to_string()),
            WriteStep::CreatePrivate("/data/access.json.tmp".to_string()),
            WriteStep::Write,
            WriteStep::Sync,
            WriteStep::Rename {
                from: "/data/access.json.tmp".to_string(),
                to: "/data/access.json".to_string(),
            },
        ]
    );
    assert_eq!(DeviceStore::new("/data", false).save().len(), 5);
    assert_eq!(rcdesk_host::fsutil::PRIVATE_MODE, 0o600);
}
