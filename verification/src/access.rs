//! The password that a client has to know to control this host. The host never
//! stores the password: `access.json` holds an OPAQUE registration record, from
//! which a login can be checked.
//!
//! Both ends of a login run one instance of OPAQUE, so the costs of the
//! key-stretching function and the identifier of the record are fixed.

use vstd::prelude::*;

use crate::crypto::{argon2id, base64url_decode, base64url_encode};
use crate::fsutil::{removed, write_private_atomic, FileRead, Removal, WriteStep};
use crate::opaque::{
    answer_registration, begin_login, begin_registration, end_login, new_server_setup,
    reads_credential_request, reads_finalization, reads_registration, reads_server_setup,
    record_registration, seal_registration,
};
use crate::text::{chars_of, join_path};

verus! {

pub const ARGON2_M_COST_KIB: u32 = 65536;

pub const ARGON2_T_COST: u32 = 3;

pub const ARGON2_P_COST: u32 = 4;

/// Length of the salt of the key-stretching function, all zeros: each record
/// has its own OPRF key, so equal passwords do not give equal inputs.
pub const KSF_SALT_LEN: usize = 16;

/// The identifier that OPAQUE binds the record to. A host has one password.
pub const CREDENTIAL_ID: &'static str = "rcdesk-owner";

/// The key-stretching function of OPAQUE: Argon2id with given costs.
#[derive(Debug, Clone, Copy, PartialEq, Eq, Structural)]
pub struct CustomKsf {
    m_cost_kib: u32,
    t_cost: u32,
    p_cost: u32,
}

impl CustomKsf {
    /// The costs are within the ranges of Argon2.
    #[verifier::type_invariant]
    pub closed spec fn wf(&self) -> bool {
        crate::crypto::argon2_costs_valid(self.m_cost_kib, self.t_cost, self.p_cost)
    }

    pub closed spec fn m_cost(&self) -> u32 {
        self.m_cost_kib
    }

    pub closed spec fn t_cost_spec(&self) -> u32 {
        self.t_cost
    }

    pub closed spec fn p_cost_spec(&self) -> u32 {
        self.p_cost
    }

    /// A function with given costs, `None` where Argon2 does not allow them.
    pub fn with_costs(m_cost_kib: u32, t_cost: u32, p_cost: u32) -> (r: Option<Self>)
        ensures
            match r {
                Some(ksf) => {
                    &&& crate::crypto::argon2_costs_valid(m_cost_kib, t_cost, p_cost)
                    &&& ksf.m_cost() == m_cost_kib
                    &&& ksf.t_cost_spec() == t_cost
                    &&& ksf.p_cost_spec() == p_cost
                },
                None => !crate::crypto::argon2_costs_valid(m_cost_kib, t_cost, p_cost),
            },
    {
        if p_cost >= 1 && p_cost <= 0xff_ffff && m_cost_kib >= 8 * p_cost && t_cost >= 1 {
            Some(CustomKsf { m_cost_kib, t_cost, p_cost })
        } else {
            None
        }
    }

    /// The function that both ends of a login use.
    pub fn with_documented_params() -> (r: Self)
        ensures
            r.m_cost() == ARGON2_M_COST_KIB,
            r.t_cost_spec() == ARGON2_T_COST,
            r.p_cost_spec() == ARGON2_P_COST,
    {
        CustomKsf {
            m_cost_kib: ARGON2_M_COST_KIB,
            t_cost: ARGON2_T_COST,
            p_cost: ARGON2_P_COST,
        }
    }

    /// Stretches `input` to as many bytes as it has. Argon2 gives no fewer than
    /// four and takes no more than 32 bits can count; any other length fails.
    pub fn hash(&self, input: &[u8]) -> (r: Option<Vec<u8>>)
        ensures
            match r {
                Some(out) => {
                    &&& 4 <= input@.len() <= 0xffff_ffff
                    &&& out@.len() == input@.len()
                    &&& out@ == crate::crypto::argon2id_of(
                        self.m_cost(),
                        self.t_cost_spec(),
                        self.p_cost_spec(),
                        Seq::new(KSF_SALT_LEN as nat, |i: int| 0u8),
                        input@,
                        input@.len(),
                    )
                },
                None => !(4 <= input@.len() <= 0xffff_ffff),
            },
    {
        proof {
            use_type_invariant(self);
        }
        let salt: [u8; 16] = [0; 16];
        assert(salt@ =~= Seq::new(KSF_SALT_LEN as nat, |i: int| 0u8));
        argon2id(self.m_cost_kib, self.t_cost, self.p_cost, &salt, input, input.len())
    }
}

impl Default for CustomKsf {
    fn default() -> (r: Self)
        ensures
            r.m_cost() == ARGON2_M_COST_KIB,
            r.t_cost_spec() == ARGON2_T_COST,
            r.p_cost_spec() == ARGON2_P_COST,
    {
        CustomKsf::with_documented_params()
    }
}

/// A completed registration, in OPAQUE's own encoding: the host's long-term keys
/// and the record that a login is checked against.
#[derive(Clone, PartialEq, Eq)]
pub struct AccessRecord {
    server_setup: Vec<u8>,
    registration: Vec<u8>,
}

impl AccessRecord {
    pub closed spec fn setup(&self) -> Seq<u8> {
        self.server_setup@
    }

    pub closed spec fn record(&self) -> Seq<u8> {
        self.registration@
    }

    pub fn new(server_setup: Vec<u8>, registration: Vec<u8>) -> (r: Self)
        ensures
            r.setup() == server_setup@,
            r.record() == registration@,
    {
        AccessRecord { server_setup, registration }
    }

    pub fn server_setup(&self) -> (r: &[u8])
        ensures
            r@ == self.setup(),
    {
        self.server_setup.as_slice()
    }

    pub fn registration(&self) -> (r: &[u8])
        ensures
            r@ == self.record(),
    {
        self.registration.as_slice()
    }

    /// Reads a record back from the form that is stored; `None` where a field is
    /// not base64.
    pub fn from_file(file: &AccessRecordFile) -> (r: Option<Self>)
        ensures
            match r {
                Some(record) => stored_record(*file) == Some((record.setup(), record.record())),
                None => stored_record(*file) is None,
            },
    {
        match base64url_decode(file.server_setup.as_str()) {
            Some(server_setup) => match base64url_decode(file.registration.as_str()) {
                Some(registration) => Some(AccessRecord { server_setup, registration }),
                None => None,
            },
            None => None,
        }
    }
}

/// What `access.json` holds: a record as URL-safe base64 without padding.
#[derive(Debug, Clone, PartialEq, Eq)]
pub struct AccessRecordFile {
    pub server_setup: String,
    pub registration: String,
}

/// The setup and the record that a file stands for; `None` where a field is not
/// base64.
pub open spec fn stored_record(file: AccessRecordFile) -> Option<(Seq<u8>, Seq<u8>)> {
    match (
        crate::crypto::base64url_bytes(file.server_setup@),
        crate::crypto::base64url_bytes(file.registration@),
    ) {
        (Some(setup), Some(record)) => Some((setup, record)),
        _ => None,
    }
}

impl AccessRecordFile {
    /// The form that is stored. Reading it gives the record back.
    pub fn of(record: &AccessRecord) -> (r: Self)
        ensures
            r.server_setup@ == crate::crypto::base64url_of(record.setup()),
            r.registration@ == crate::crypto::base64url_of(record.record()),
            stored_record(r) == Some((record.setup(), record.record())),
    {
        AccessRecordFile {
            server_setup: base64url_encode(record.server_setup()),
            registration: base64url_encode(record.registration()),
        }
    }
}

/// The file `access.json` in the agent's data directory. Where there is none, no
/// password is set.
pub struct AccessStore {
    dir: String,
    path: String,
}

/// The record that is read back, from what reading and parsing the file came to.
pub open spec fn loaded(read: FileRead<AccessRecordFile>) -> Option<(Seq<u8>, Seq<u8>)> {
    match read {
        FileRead::Parsed(file) => stored_record(file),
        _ => None,
    }
}

/// What there is to warn of when a record is read.
pub open spec fn load_warning(read: FileRead<AccessRecordFile>) -> Option<Seq<char>> {
    match read {
        FileRead::Missing => None,
        FileRead::Unreadable => Some(
            "failed to read access record file, treating as no password set"@,
        ),
        FileRead::Malformed => Some(
            "access record file is not valid JSON, treating as no password set"@,
        ),
        FileRead::Parsed(file) => if stored_record(file) is Some {
            None
        } else {
            Some("access record file has invalid base64, treating as no password set"@)
        },
    }
}

impl AccessStore {
    /// The directory that the store is in.
    pub closed spec fn dir_spec(&self) -> Seq<char> {
        self.dir@
    }

    /// The file itself.
    pub closed spec fn path_spec(&self) -> Seq<char> {
        self.path@
    }

    pub fn new(dir: &str, windows: bool) -> (r: Self)
        ensures
            r.dir_spec() == dir@,
            r.path_spec() == crate::text::joined(windows, dir@, "access.json"@),
    {
        AccessStore { dir: dir.to_owned(), path: join_path(windows, dir, "access.json") }
    }

    pub fn path(&self) -> (r: &str)
        ensures
            r@ == self.path_spec(),
    {
        self.path.as_str()
    }

    /// The saved record, from what reading the file came to, and what to warn
    /// of. A damaged file counts as no password.
    pub fn load(&self, read: FileRead<AccessRecordFile>) -> (r: (
        Option<AccessRecord>,
        Option<&'static str>,
    ))
        ensures
            match r.0 {
                Some(record) => loaded(read) == Some((record.setup(), record.record())),
                None => loaded(read) is None,
            },
            match r.1 {
                Some(warning) => load_warning(read) == Some(warning@),
                None => load_warning(read) is None,
            },
    {
        match read {
            FileRead::Missing => (None, None),
            FileRead::Unreadable => (
                None,
                Some("failed to read access record file, treating as no password set"),
            ),
            FileRead::Malformed => (
                None,
                Some("access record file is not valid JSON, treating as no password set"),
            ),
            FileRead::Parsed(file) => match AccessRecord::from_file(&file) {
                Some(record) => (Some(record), None),
                None => (
                    None,
                    Some("access record file has invalid base64, treating as no password set"),
                ),
            },
        }
    }

    /// What to store of a record, and how to write it. What is saved is loaded:
    /// parsed back, it gives the same setup and record, without a warning.
    pub fn save(&self, record: &AccessRecord) -> (r: (AccessRecordFile, Vec<WriteStep>))
        ensures
            loaded(FileRead::Parsed(r.0)) == Some((record.setup(), record.record())),
            load_warning(FileRead::Parsed(r.0)) is None,
            r.0.server_setup@ == crate::crypto::base64url_of(record.setup()),
            r.0.registration@ == crate::crypto::base64url_of(record.record()),
            crate::fsutil::is_private_write(r.1@, self.dir_spec(), self.path_spec()),
    {
        (AccessRecordFile::of(record), write_private_atomic(self.dir.as_str(), self.path.as_str()))
    }

    /// Whether the record is gone, from what removing the file came to.
    pub fn clear(&self, outcome: Removal) -> (r: Result<(), String>)
        ensures
            match outcome {
                Removal::Failed(err) => r == Err::<(), String>(err),
                _ => r is Ok,
            },
    {
        removed(outcome)
    }
}

/// The step at which setting a password or a login failed.
#[derive(Debug, Clone, Copy, PartialEq, Eq, Structural)]
pub enum AccessError {
    RegistrationBegin,
    RegistrationAnswer,
    RegistrationSeal,
    ServerSetup,
    Registration,
    CredentialRequest,
    LoginBegin,
    Finalization,
    LoginEnd,
}

/// What an error says.
pub open spec fn access_error_text(error: AccessError) -> Seq<char> {
    match error {
        AccessError::RegistrationBegin => "opaque client registration start failed"@,
        AccessError::RegistrationAnswer => "opaque server registration start failed"@,
        AccessError::RegistrationSeal => "opaque client registration finish failed"@,
        AccessError::ServerSetup => "failed to deserialize server setup"@,
        AccessError::Registration => "failed to deserialize server registration"@,
        AccessError::CredentialRequest => "failed to deserialize credential request"@,
        AccessError::LoginBegin => "opaque server login start failed"@,
        AccessError::Finalization => "failed to deserialize credential finalization"@,
        AccessError::LoginEnd => "opaque server login finish failed"@,
    }
}

impl AccessError {
    pub fn message(&self) -> (r: &'static str)
        ensures
            r@ == access_error_text(*self),
    {
        match self {
            AccessError::RegistrationBegin => "opaque client registration start failed",
            AccessError::RegistrationAnswer => "opaque server registration start failed",
            AccessError::RegistrationSeal => "opaque client registration finish failed",
            AccessError::ServerSetup => "failed to deserialize server setup",
            AccessError::Registration => "failed to deserialize server registration",
            AccessError::CredentialRequest => "failed to deserialize credential request",
            AccessError::LoginBegin => "opaque server login start failed",
            AccessError::Finalization => "failed to deserialize credential finalization",
            AccessError::LoginEnd => "opaque server login finish failed",
        }
    }
}

/// What a step of OPAQUE came to: its outcome, or the step as the error.
pub fn settled<T>(outcome: Option<T>, step: AccessError) -> (r: Result<T, AccessError>)
    ensures
        r == (match outcome {
            Some(value) => Ok::<T, AccessError>(value),
            None => Err::<T, AccessError>(step),
        }),
{
    match outcome {
        Some(value) => Ok(value),
        None => Err(step),
    }
}

/// The setup and the record are those of a registration of the password: one
/// request, answered under the setup and the fixed identifier, and sealed for
/// the password with the documented costs.
pub open spec fn registers(password: Seq<char>, setup: Seq<u8>, record: Seq<u8>) -> bool {
    exists|state: Seq<u8>, request: Seq<u8>, response: Seq<u8>|
        {
            &&& #[trigger] crate::opaque::registration_begun(vstd::utf8::encode_utf8(password), state, request)
            &&& #[trigger] crate::opaque::registration_response_of(
                setup,
                request,
                vstd::utf8::encode_utf8(CREDENTIAL_ID@),
            ) == Some(response)
            &&& #[trigger] crate::opaque::registration_sealed(
                state,
                vstd::utf8::encode_utf8(password),
                response,
                ARGON2_M_COST_KIB,
                ARGON2_T_COST,
                ARGON2_P_COST,
                record,
            )
        }
}

/// A request was begun for the password and not answered, under a setup that
/// reads and the fixed identifier.
pub open spec fn unanswered(password: Seq<char>) -> bool {
    exists|setup: Seq<u8>, state: Seq<u8>, request: Seq<u8>|
        {
            &&& crate::opaque::server_setup_reads(setup)
            &&& #[trigger] crate::opaque::registration_begun(
                vstd::utf8::encode_utf8(password),
                state,
                request,
            )
            &&& #[trigger] crate::opaque::registration_response_of(
                setup,
                request,
                vstd::utf8::encode_utf8(CREDENTIAL_ID@),
            ) is None
        }
}

/// A request was begun for the password and answered.
pub open spec fn answered(password: Seq<char>) -> bool {
    exists|setup: Seq<u8>, state: Seq<u8>, request: Seq<u8>|
        {
            &&& crate::opaque::server_setup_reads(setup)
            &&& #[trigger] crate::opaque::registration_begun(
                vstd::utf8::encode_utf8(password),
                state,
                request,
            )
            &&& #[trigger] crate::opaque::registration_response_of(
                setup,
                request,
                vstd::utf8::encode_utf8(CREDENTIAL_ID@),
            ) is Some
        }
}

/// Registers a password, with the host at both ends of OPAQUE. What comes of it
/// can be logged in to: both parts of the record read. The first step fails on
/// passwords that OPAQUE does not take, and on none of 1 to 65535 bytes; whether
/// the others succeed is up to the random numbers too.
pub fn register(password: &str) -> (r: Result<AccessRecord, AccessError>)
    ensures
        match r {
            Ok(record) => {
                &&& crate::opaque::registration_begins(vstd::utf8::encode_utf8(password@))
                &&& registers(password@, record.setup(), record.record())
                &&& crate::opaque::server_setup_reads(record.setup())
                &&& crate::opaque::registration_reads(record.record())
            },
            Err(AccessError::RegistrationBegin) => !crate::opaque::registration_begins(
                vstd::utf8::encode_utf8(password@),
            ),
            Err(AccessError::RegistrationAnswer) => {
                &&& crate::opaque::registration_begins(vstd::utf8::encode_utf8(password@))
                &&& unanswered(password@)
            },
            Err(AccessError::RegistrationSeal) => {
                &&& crate::opaque::registration_begins(vstd::utf8::encode_utf8(password@))
                &&& answered(password@)
            },
            Err(_) => false,
        },
        1 <= vstd::utf8::encode_utf8(password@).len() <= 0xffff ==> !(r matches Err(
            AccessError::RegistrationBegin,
        )),
{
    let ksf = CustomKsf::with_documented_params();
    proof {
        use_type_invariant(&ksf);
    }
    let setup: Vec<u8> = new_server_setup();
    let begun = settled(
        begin_registration(password.as_bytes()),
        AccessError::RegistrationBegin,
    );
    let (state, request): (Vec<u8>, Vec<u8>) = match begun {
        Ok(begun) => begun,
        Err(step) => return Err(step),
    };
    let answer = settled(
        answer_registration(setup.as_slice(), request.as_slice(), CREDENTIAL_ID.as_bytes()),
        AccessError::RegistrationAnswer,
    );
    let response: Vec<u8> = match answer {
        Ok(response) => response,
        Err(step) => return Err(step),
    };
    let sealed = settled(
        seal_registration(
            state.as_slice(),
            password.as_bytes(),
            response.as_slice(),
            ksf.m_cost_kib,
            ksf.t_cost,
            ksf.p_cost,
        ),
        AccessError::RegistrationSeal,
    );
    let upload: Vec<u8> = match sealed {
        Ok(upload) => upload,
        Err(step) => return Err(step),
    };
    let recorded = settled(
        record_registration(upload.as_slice()),
        AccessError::RegistrationSeal,
    );
    let registration: Vec<u8> = match recorded {
        Ok(registration) => registration,
        Err(step) => return Err(step),
    };
    assert(registration@ =~= upload@);
    Ok(AccessRecord { server_setup: setup, registration })
}

/// The key that a login ends with. Its bytes are reached by name only, and it
/// has no `Debug`, so that no log shows it.
pub struct SessionKey(Vec<u8>);

impl SessionKey {
    pub closed spec fn view(&self) -> Seq<u8> {
        self.0@
    }

    pub fn as_bytes(&self) -> (r: &[u8])
        ensures
            r@ == self@,
    {
        self.0.as_slice()
    }
}

/// The host's side of a login between its two steps.
pub struct LoginServer {
    state: Vec<u8>,
}

impl LoginServer {
    /// The state is a key and the code that releases it.
    #[verifier::type_invariant]
    closed spec fn wf(&self) -> bool {
        self.state@.len() == crate::opaque::LOGIN_STATE_LEN
    }

    /// OPAQUE's state, encoded.
    pub closed spec fn state(&self) -> Seq<u8> {
        self.state@
    }

    /// Ends the login with the client's last message. The key is handed out only
    /// to a client that sent the code the host expects.
    pub fn login_finish(self, credential_finalization: &[u8]) -> (r: Result<
        SessionKey,
        AccessError,
    >)
        ensures
            match r {
                Ok(key) => {
                    &&& crate::opaque::confirms(self.state(), credential_finalization@)
                    &&& key@ == crate::opaque::agreed_key(self.state())
                },
                Err(AccessError::Finalization) => !crate::opaque::finalization_reads(
                    credential_finalization@,
                ),
                Err(AccessError::LoginEnd) => {
                    &&& crate::opaque::finalization_reads(credential_finalization@)
                    &&& !crate::opaque::confirms(self.state(), credential_finalization@)
                },
                Err(_) => false,
            },
    {
        proof {
            use_type_invariant(&self);
        }
        if !reads_finalization(credential_finalization) {
            return Err(AccessError::Finalization);
        }
        let ended = settled(
            end_login(self.state.as_slice(), credential_finalization),
            AccessError::LoginEnd,
        );
        match ended {
            Ok(key) => Ok(SessionKey(key)),
            Err(step) => Err(step),
        }
    }
}

/// Starts a login: checks a client's first message against the record. Gives the
/// host's state and the response to send.
pub fn login_start(record: &AccessRecord, credential_request: &[u8]) -> (r: Result<
    (LoginServer, Vec<u8>),
    AccessError,
>)
    ensures
        match r {
            Ok((server, response)) => {
                &&& login_inputs_read(record, credential_request@)
                &&& crate::opaque::login_begun(
                    record.setup(),
                    record.record(),
                    credential_request@,
                    vstd::utf8::encode_utf8(CREDENTIAL_ID@),
                    server.state(),
                    response@,
                )
            },
            Err(AccessError::ServerSetup) => !crate::opaque::server_setup_reads(record.setup()),
            Err(AccessError::Registration) => {
                &&& crate::opaque::server_setup_reads(record.setup())
                &&& !crate::opaque::registration_reads(record.record())
            },
            Err(AccessError::CredentialRequest) => {
                &&& crate::opaque::server_setup_reads(record.setup())
                &&& crate::opaque::registration_reads(record.record())
                &&& !crate::opaque::credential_request_reads(credential_request@)
            },
            Err(AccessError::LoginBegin) => login_inputs_read(record, credential_request@),
            Err(_) => false,
        },
{
    if !reads_server_setup(record.server_setup()) {
        return Err(AccessError::ServerSetup);
    }
    if !reads_registration(record.registration()) {
        return Err(AccessError::Registration);
    }
    if !reads_credential_request(credential_request) {
        return Err(AccessError::CredentialRequest);
    }
    let begun = settled(
        begin_login(
            record.server_setup(),
            record.registration(),
            credential_request,
            CREDENTIAL_ID.as_bytes(),
        ),
        AccessError::LoginBegin,
    );
    match begun {
        Ok((state, response)) => Ok((LoginServer { state }, response)),
        Err(step) => Err(step),
    }
}

/// A login's key is released by one code: two messages that both end it begin
/// with the same bytes.
pub proof fn law_one_code_ends_a_login(state: Seq<u8>, first: Seq<u8>, second: Seq<u8>)
    requires
        crate::opaque::confirms(state, first),
        crate::opaque::confirms(state, second),
    ensures
        first.subrange(0, crate::opaque::SESSION_KEY_LEN as int) == second.subrange(
            0,
            crate::opaque::SESSION_KEY_LEN as int,
        ),
{
}

/// A password that was registered, saved and loaded again is what a login starts
/// from: only the client's message is left to read.
pub proof fn law_a_saved_password_can_be_used(
    record: &AccessRecord,
    loaded_record: &AccessRecord,
    file: AccessRecordFile,
    request: Seq<u8>,
)
    requires
        crate::opaque::server_setup_reads(record.setup()),
        crate::opaque::registration_reads(record.record()),
        loaded(FileRead::Parsed(file)) == Some((record.setup(), record.record())),
        loaded(FileRead::Parsed(file)) == Some((loaded_record.setup(), loaded_record.record())),
    ensures
        login_inputs_read(loaded_record, request) == crate::opaque::credential_request_reads(
            request,
        ),
{
}

/// OPAQUE can read all that a login starts from.
pub open spec fn login_inputs_read(record: &AccessRecord, request: Seq<u8>) -> bool {
    &&& crate::opaque::server_setup_reads(record.setup())
    &&& crate::opaque::registration_reads(record.record())
    &&& crate::opaque::credential_request_reads(request)
}

pub const MIN_PASSWORD_LEN: usize = 8;

pub const MAX_PASSWORD_LEN: usize = 128;

/// What is wrong with a password: white space at either end comes before its
/// length, which is counted in characters.
pub open spec fn password_problem(password: Seq<char>) -> Option<Seq<char>> {
    if password.len() > 0 && (crate::text::white_space(password.first())
        || crate::text::white_space(password.last())) {
        Some("Пароль не должен начинаться или заканчиваться пробелом"@)
    } else if password.len() < MIN_PASSWORD_LEN {
        Some("Пароль должен содержать не менее 8 символов"@)
    } else if password.len() > MAX_PASSWORD_LEN {
        Some("Пароль должен содержать не более 128 символов"@)
    } else {
        None
    }
}

/// Checks a password before it is registered. The message is for the owner.
pub fn validate_password(password: &str) -> (r: Result<(), String>)
    ensures
        match r {
            Ok(_) => password_problem(password@) is None,
            Err(message) => password_problem(password@) == Some(message@),
        },
{
    let chars: Vec<char> = chars_of(password);
    let len: usize = chars.len();
    if len > 0 && (chars[0].is_whitespace() || chars[len - 1].is_whitespace()) {
        return Err(String::from_str("Пароль не должен начинаться или заканчиваться пробелом"));
    }
    if len < MIN_PASSWORD_LEN {
        return Err(String::from_str("Пароль должен содержать не менее 8 символов"));
    }
    if len > MAX_PASSWORD_LEN {
        return Err(String::from_str("Пароль должен содержать не более 128 символов"));
    }
    Ok(())
}

/// Spaces at the ends are never part of a password, so trimming one that is
/// accepted changes nothing.
pub proof fn law_accepted_passwords_are_trimmed(password: Seq<char>)
    requires
        password_problem(password) is None,
    ensures
        crate::text::trim(password) == password,
{
    reveal_with_fuel(crate::text::trim_start, 1);
    reveal_with_fuel(crate::text::trim_end, 1);
}

/// A password of 8 to 128 characters that neither begins nor ends with white space
/// is accepted, and no other is.
pub proof fn law_good_passwords_are_accepted(password: Seq<char>)
    ensures
        password_problem(password) is None <==> {
            &&& 8 <= password.len() <= 128
            &&& !crate::text::white_space(password[0])
            &&& !crate::text::white_space(password[password.len() - 1])
        },
{
}

/// A file that is there and cannot be used is warned of and counts as none; a
/// missing one is no reason to warn, nor is one that gives a record.
pub proof fn law_unusable_records_are_warned_of(read: FileRead<AccessRecordFile>)
    ensures
        load_warning(read) is Some <==> loaded(read) is None && !(read is Missing),
        read is Missing || read is Unreadable || read is Malformed ==> loaded(read) is None,
{
}

/// Every error is put in words of its own.
pub proof fn law_errors_say_different_things(a: AccessError, b: AccessError)
    requires
        a != b,
    ensures
        access_error_text(a) != access_error_text(b),
{
    reveal_strlit("opaque client registration start failed");
    reveal_strlit("opaque server registration start failed");
    reveal_strlit("opaque client registration finish failed");
    reveal_strlit("failed to deserialize server setup");
    reveal_strlit("failed to deserialize server registration");
    reveal_strlit("failed to deserialize credential request");
    reveal_strlit("opaque server login start failed");
    reveal_strlit("failed to deserialize credential finalization");
    reveal_strlit("opaque server login finish failed");
    let s = access_error_text(a);
    let t = access_error_text(b);
    assert(s.len() != t.len() || s[0] != t[0] || s[7] != t[7]);
}

/// A stored file gives back a record only where both of its fields are base64, each
/// in its own place.
pub proof fn law_fields_keep_their_places(file: AccessRecordFile, setup: Seq<u8>, record: Seq<u8>)
    ensures
        stored_record(file) == Some((setup, record)) <==> crate::crypto::base64url_bytes(
            file.server_setup@,
        ) == Some(setup) && crate::crypto::base64url_bytes(file.registration@) == Some(record),
{
}

/// A password is registered with 64 MiB of memory, three passes and four lanes, and
/// for the one owner that there is.
pub proof fn law_registering_costs_what_is_documented(
    password: Seq<char>,
    setup: Seq<u8>,
    record: Seq<u8>,
)
    requires
        registers(password, setup, record),
    ensures
        exists|state: Seq<u8>, request: Seq<u8>, response: Seq<u8>|
            {
                &&& #[trigger] crate::opaque::registration_begun(
                    vstd::utf8::encode_utf8(password),
                    state,
                    request,
                )
                &&& #[trigger] crate::opaque::registration_response_of(
                    setup,
                    request,
                    vstd::utf8::encode_utf8("rcdesk-owner"@),
                ) == Some(response)
                &&& #[trigger] crate::opaque::registration_sealed(
                    state,
                    vstd::utf8::encode_utf8(password),
                    response,
                    65536,
                    3,
                    4,
                    record,
                )
            },
{
}

} // verus!
