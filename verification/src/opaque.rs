//! The password protocol OPAQUE, as the opaque_ke crate has it, from bytes to
//! bytes. The host is its server; to set a password it plays the client too.
//!
//! What OPAQUE computes it computes with random numbers of the system, so a name
//! that says which outcomes belong to which inputs stands where a result cannot
//! have a name.

use core::marker::PhantomData;

use vstd::prelude::*;

use argon2::{Algorithm, Argon2, Params, Version};
use opaque_ke::hash::ProxyHash;
use opaque_ke::key_exchange::KeyExchange;
use opaque_ke::ksf::Ksf;
use opaque_ke::{
    CipherSuite, ClientRegistration, ClientRegistrationFinishParameters, CredentialFinalization,
    CredentialRequest, Identifiers, RegistrationRequest, RegistrationResponse, RegistrationUpload,
    ServerLogin, ServerLoginParameters, ServerRegistration, ServerSetup,
};
use rand_core::OsRng;
use sha2::digest::core_api::{BlockSizeUser, CoreProxy};
use sha2::digest::typenum::{IsLess, Le, NonZero, U256};

verus! {

/// The group of the OPRF and of the key exchange.
#[verifier::external_type_specification]
#[verifier::external_body]
pub struct ExRistretto255(opaque_ke::Ristretto255);

/// The digits of the numbers that bound a hash function's block size.
#[verifier::external_type_specification]
#[verifier::external_body]
#[verifier::reject_recursive_types(U)]
#[verifier::reject_recursive_types(B)]
pub struct ExUInt<U, B>(sha2::digest::typenum::UInt<U, B>);

#[verifier::external_type_specification]
#[verifier::external_body]
pub struct ExUTerm(sha2::digest::typenum::UTerm);

#[verifier::external_type_specification]
#[verifier::external_body]
pub struct ExB0(sha2::digest::typenum::B0);

#[verifier::external_type_specification]
#[verifier::external_body]
pub struct ExB1(sha2::digest::typenum::B1);

/// OPAQUE over Ristretto255, with a key exchange `K` and a stretching function
/// `S`.
pub struct RistrettoSuite<K, S>(PhantomData<(K, S)>);

impl<K, S> CipherSuite for RistrettoSuite<K, S> where
    K: KeyExchange<Group = opaque_ke::Ristretto255>,
    <K::Hash as CoreProxy>::Core: ProxyHash,
    <<K::Hash as CoreProxy>::Core as BlockSizeUser>::BlockSize: IsLess<U256>,
    Le<<<K::Hash as CoreProxy>::Core as BlockSizeUser>::BlockSize, U256>: NonZero,
    S: Ksf,
 {
    type OprfCs = opaque_ke::Ristretto255;

    type KeyExchange = K;

    type Ksf = S;
}

/// The instance that both ends of a login run: 3DH with SHA-512. What stretches
/// the password is left to the end that holds it: `S` has to be, by default too,
/// what [`CustomKsf`](crate::access::CustomKsf) is by default.
pub type RcdeskCipherSuite<S> = RistrettoSuite<
    opaque_ke::TripleDh<opaque_ke::Ristretto255, sha2::Sha512>,
    S,
>;

/// The host's end. It stretches a password only when one is registered, and
/// hands over the costs then.
type HostSuite = RcdeskCipherSuite<Argon2<'static>>;

/// Length of an encoded registration: a public key, a masking key and an
/// envelope.
pub const REGISTRATION_LEN: usize = 192;

/// Length of the state between the two steps of a login: the session key and
/// the code that the client has to send.
pub const LOGIN_STATE_LEN: usize = 128;

/// Length of a session key, and of the code that confirms a login.
pub const SESSION_KEY_LEN: usize = 64;

/// The bytes are a server setup as `ServerSetup::deserialize` accepts it.
pub uninterp spec fn server_setup_reads(bytes: Seq<u8>) -> bool;

/// The bytes are a registration as `ServerRegistration::deserialize` accepts it.
pub uninterp spec fn registration_reads(bytes: Seq<u8>) -> bool;

/// The bytes are a login's first message as `CredentialRequest::deserialize`
/// accepts it.
pub uninterp spec fn credential_request_reads(bytes: Seq<u8>) -> bool;

/// Whether `ClientRegistration::start` takes the password, whatever the blinding
/// factor.
pub uninterp spec fn registration_begins(password: Seq<u8>) -> bool;

/// `ClientRegistration::start` on the password can give this state and request.
pub uninterp spec fn registration_begun(
    password: Seq<u8>,
    state: Seq<u8>,
    request: Seq<u8>,
) -> bool;

/// What `ServerRegistration::start` answers a request with.
pub uninterp spec fn registration_response_of(
    setup: Seq<u8>,
    request: Seq<u8>,
    credential: Seq<u8>,
) -> Option<Seq<u8>>;

/// `ClientRegistration::finish` can give this upload, where the password is
/// stretched by Argon2id with the given costs.
pub uninterp spec fn registration_sealed(
    state: Seq<u8>,
    password: Seq<u8>,
    response: Seq<u8>,
    m_cost_kib: u32,
    t_cost: u32,
    p_cost: u32,
    upload: Seq<u8>,
) -> bool;

/// `ServerLogin::start` can give this state and response.
pub uninterp spec fn login_begun(
    setup: Seq<u8>,
    registration: Seq<u8>,
    request: Seq<u8>,
    credential: Seq<u8>,
    state: Seq<u8>,
    response: Seq<u8>,
) -> bool;

/// The bytes hold a login's last message, the client's code; what follows it is
/// not looked at.
pub open spec fn finalization_reads(bytes: Seq<u8>) -> bool {
    bytes.len() >= SESSION_KEY_LEN
}

/// The key that a login in this state ends with.
pub open spec fn agreed_key(state: Seq<u8>) -> Seq<u8> {
    state.subrange(0, SESSION_KEY_LEN as int)
}

/// The client's last message confirms a login in this state: it is the code that
/// the host worked out from the client's record.
pub open spec fn confirms(state: Seq<u8>, finalization: Seq<u8>) -> bool {
    &&& finalization_reads(finalization)
    &&& finalization.subrange(0, SESSION_KEY_LEN as int) == state.subrange(
        SESSION_KEY_LEN as int,
        LOGIN_STATE_LEN as int,
    )
}

/// Calls `ServerSetup::new` and `serialize` of the opaque_ke crate: fresh
/// long-term keys of a host. What is encoded can be read back. Which keys they
/// are is up to chance, so nothing else is said of them.
#[verifier::external_body]
pub(crate) fn new_server_setup() -> (r: Vec<u8>)
    ensures
        server_setup_reads(r@),
{
    ServerSetup::<HostSuite>::new(&mut OsRng).serialize().to_vec()
}

/// Calls `ServerSetup::deserialize` of the opaque_ke crate.
#[verifier::external_body]
pub(crate) fn reads_server_setup(bytes: &[u8]) -> (r: bool)
    ensures
        r == server_setup_reads(bytes@),
{
    ServerSetup::<HostSuite>::deserialize(bytes).is_ok()
}

/// Calls `ServerRegistration::deserialize` of the opaque_ke crate.
#[verifier::external_body]
pub(crate) fn reads_registration(bytes: &[u8]) -> (r: bool)
    ensures
        r == registration_reads(bytes@),
{
    ServerRegistration::<HostSuite>::deserialize(bytes).is_ok()
}

/// Calls `CredentialRequest::deserialize` of the opaque_ke crate.
#[verifier::external_body]
pub(crate) fn reads_credential_request(bytes: &[u8]) -> (r: bool)
    ensures
        r == credential_request_reads(bytes@),
{
    CredentialRequest::<HostSuite>::deserialize(bytes).is_ok()
}

/// Calls `CredentialFinalization::deserialize` of the opaque_ke crate, which
/// takes a code off the front.
#[verifier::external_body]
pub(crate) fn reads_finalization(bytes: &[u8]) -> (r: bool)
    ensures
        r == finalization_reads(bytes@),
{
    CredentialFinalization::<HostSuite>::deserialize(bytes).is_ok()
}

/// Calls `ClientRegistration::start` of the opaque_ke crate: the client's state
/// and its request. The blinding factor is random. `None` where OPAQUE cannot
/// blind the password, which is up to the password alone; one of at least one
/// byte and of at most 65535 it can.
#[verifier::external_body]
pub(crate) fn begin_registration(password: &[u8]) -> (r: Option<(Vec<u8>, Vec<u8>)>)
    ensures
        r is Some == registration_begins(password@),
        1 <= password@.len() <= 0xffff ==> r is Some,
        r matches Some((state, request)) ==> registration_begun(password@, state@, request@),
{
    let begun = ClientRegistration::<HostSuite>::start(&mut OsRng, password).ok()?;
    Some((begun.state.serialize().to_vec(), begun.message.serialize().to_vec()))
}

/// Calls `ServerRegistration::start` of the opaque_ke crate, which derives the
/// key of the answer from the setup and the credential's name.
#[verifier::external_body]
pub(crate) fn answer_registration(setup: &[u8], request: &[u8], credential: &[u8]) -> (r: Option<
    Vec<u8>,
>)
    ensures
        match r {
            Some(response) => registration_response_of(setup@, request@, credential@) == Some(
                response@,
            ),
            None => registration_response_of(setup@, request@, credential@) is None,
        },
{
    let setup = ServerSetup::<HostSuite>::deserialize(setup).ok()?;
    let request = RegistrationRequest::<HostSuite>::deserialize(request).ok()?;
    let answer = ServerRegistration::start(&setup, request, credential).ok()?;
    Some(answer.message.serialize().to_vec())
}

/// Calls `ClientRegistration::finish` of the opaque_ke crate, with Argon2id as
/// its stretching function. The upload's envelope is sealed under a random
/// nonce. `None` where OPAQUE finds the answer unusable; when that is, is left
/// unsaid.
#[verifier::external_body]
pub(crate) fn seal_registration(
    state: &[u8],
    password: &[u8],
    response: &[u8],
    m_cost_kib: u32,
    t_cost: u32,
    p_cost: u32,
) -> (r: Option<Vec<u8>>)
    requires
        crate::crypto::argon2_costs_valid(m_cost_kib, t_cost, p_cost),
    ensures
        r matches Some(upload) ==> {
            &&& registration_sealed(
                state@,
                password@,
                response@,
                m_cost_kib,
                t_cost,
                p_cost,
                upload@,
            )
            &&& registration_reads(upload@)
            &&& upload@.len() == REGISTRATION_LEN
        },
{
    let costs = Params::new(m_cost_kib, t_cost, p_cost, None).ok()?;
    let ksf = Argon2::new(Algorithm::Argon2id, Version::V0x13, costs);
    let state = ClientRegistration::<HostSuite>::deserialize(state).ok()?;
    let response = RegistrationResponse::deserialize(response).ok()?;
    let ids = Identifiers::default();
    let params = ClientRegistrationFinishParameters::new(ids, Some(&ksf));
    let sealed = state.finish(&mut OsRng, password, response, params).ok()?;
    Some(sealed.message.serialize().to_vec())
}

/// Calls `ServerRegistration::finish` of the opaque_ke crate, which keeps the
/// upload as it is.
#[verifier::external_body]
pub(crate) fn record_registration(upload: &[u8]) -> (r: Option<Vec<u8>>)
    ensures
        match r {
            Some(registration) => {
                &&& registration_reads(upload@)
                &&& upload@.len() >= REGISTRATION_LEN
                &&& registration@ == upload@.subrange(0, REGISTRATION_LEN as int)
            },
            None => !registration_reads(upload@),
        },
{
    let upload = RegistrationUpload::<HostSuite>::deserialize(upload).ok()?;
    Some(ServerRegistration::finish(upload).serialize().to_vec())
}

/// Calls `ServerLogin::start` of the opaque_ke crate, with no context and no
/// names of the parties: the host's state and its response. Both are made with a
/// random nonce and a random key. `None` where OPAQUE refuses; when it does that
/// to inputs that read, is left unsaid.
#[verifier::external_body]
pub(crate) fn begin_login(
    setup: &[u8],
    registration: &[u8],
    request: &[u8],
    credential: &[u8],
) -> (r: Option<(Vec<u8>, Vec<u8>)>)
    ensures
        r matches Some((state, response)) ==> {
            &&& login_begun(setup@, registration@, request@, credential@, state@, response@)
            &&& state@.len() == LOGIN_STATE_LEN
        },
{
    let setup = ServerSetup::<HostSuite>::deserialize(setup).ok()?;
    let registration = ServerRegistration::deserialize(registration).ok()?;
    let request = CredentialRequest::deserialize(request).ok()?;
    let known = Some(registration);
    let params = ServerLoginParameters::default();
    let begun =
        ServerLogin::start(&mut OsRng, &setup, known, request, credential, params).ok()?;
    Some((begun.state.serialize().to_vec(), begun.message.serialize().to_vec()))
}

/// Calls `ServerLogin::finish` of the opaque_ke crate, which compares the
/// client's code with the one in the state and hands out the key beside it.
#[verifier::external_body]
pub(crate) fn end_login(state: &[u8], finalization: &[u8]) -> (r: Option<Vec<u8>>)
    requires
        state@.len() == LOGIN_STATE_LEN,
    ensures
        match r {
            Some(key) => confirms(state@, finalization@) && key@ == agreed_key(state@),
            None => !confirms(state@, finalization@),
        },
{
    let state = ServerLogin::<HostSuite>::deserialize(state).ok()?;
    let message = CredentialFinalization::deserialize(finalization).ok()?;
    let done = state.finish(message, ServerLoginParameters::default()).ok()?;
    Some(done.session_key.to_vec())
}

} // verus!
