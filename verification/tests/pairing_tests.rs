use moonshine::pairing::{
    client_pairing_secret, create_key, get_server_cert, pair, pair_challenge, pin, unpair,
    ClientStore, PairParams, PairPhrase, PairResponse, PairingError, ServerIdentity,
};

fn generate_identity() -> (Vec<u8>, Vec<u8>, openssl::pkey::PKey<openssl::pkey::Private>) {
    let rsa = openssl::rsa::Rsa::generate(2048).unwrap();
    let pkey = openssl::pkey::PKey::from_rsa(rsa).unwrap();
    let mut name = openssl::x509::X509NameBuilder::new().unwrap();
    name.append_entry_by_text("CN", "moonshine-test").unwrap();
    let name = name.build();
    let mut builder = openssl::x509::X509Builder::new().unwrap();
    builder.set_version(2).unwrap();
    builder.set_subject_name(&name).unwrap();
    builder.set_issuer_name(&name).unwrap();
    builder.set_pubkey(&pkey).unwrap();
    let not_before = openssl::asn1::Asn1Time::days_from_now(0).unwrap();
    let not_after = openssl::asn1::Asn1Time::days_from_now(365).unwrap();
    builder.set_not_before(&not_before).unwrap();
    builder.set_not_after(&not_after).unwrap();
    builder
        .sign(&pkey, openssl::hash::MessageDigest::sha256())
        .unwrap();
    let cert = builder.build();
    let cert_pem = cert.to_pem().unwrap();
    let key_pem = pkey.private_key_to_pem_pkcs8().unwrap();
    (cert_pem, key_pem, pkey)
}

fn ecb(data: &[u8], key: &[u8], mode: openssl::symm::Mode) -> Vec<u8> {
    let mut crypter =
        openssl::symm::Crypter::new(openssl::symm::Cipher::aes_128_ecb(), mode, key, None).unwrap();
    crypter.pad(false);
    let mut out = vec![0u8; data.len() + 16];
    let mut written = crypter.update(data, &mut out).unwrap();
    written += crypter.finalize(&mut out[written..]).unwrap();
    out.truncate(written);
    out
}

fn sha256(data: &[u8]) -> Vec<u8> {
    openssl::hash::hash(openssl::hash::MessageDigest::sha256(), data)
        .unwrap()
        .to_vec()
}

fn empty_params() -> PairParams {
    PairParams {
        phrase: None,
        uniqueid: None,
        clientcert: None,
        salt: None,
        clientchallenge: None,
        serverchallengeresp: None,
        clientpairingsecret: None,
    }
}

const SALT_HEX: &[u8] = b"00112233445566778899aabbccddeeff";

struct Exchange {
    store: ClientStore,
    server: ServerIdentity,
    client_cert_pem: Vec<u8>,
    key: Vec<u8>,
    challenge_plain: Vec<u8>,
    client_secret: Vec<u8>,
}

/// Drive the exchange through `serverchallengeresp` as a cooperating
/// client would, and hand back everything needed for the last phase.
fn run_through_phase_four() -> Exchange {
    let (server_cert_pem, server_key_pem, _server_pkey) = generate_identity();
    let (client_cert_pem, _client_key_pem, _client_pkey) = generate_identity();
    let server =
        ServerIdentity::from_pem(server_cert_pem.clone(), server_key_pem.clone()).unwrap();
    let mut store = ClientStore::new();

    // phase 1: getservercert
    let mut params = empty_params();
    params.phrase = Some(PairPhrase::GetServerCert);
    params.uniqueid = Some(b"abc".to_vec());
    params.clientcert = Some(hex::encode(&client_cert_pem).into_bytes());
    params.salt = Some(SALT_HEX.to_vec());
    let reply = pair(&mut store, &server, &params).unwrap();
    match reply {
        PairResponse::ServerCert(v) => {
            assert_eq!(v, hex::encode(&server_cert_pem).into_bytes());
        }
        _ => panic!("expected the server certificate"),
    }

    // phase 2: pin
    pin(
        &mut store,
        &Some(b"abc".to_vec()),
        &Some(b"1234".to_vec()),
    )
    .unwrap();
    let salt = hex::decode(SALT_HEX).unwrap();
    let mut key_input = salt.clone();
    key_input.extend_from_slice(b"1234");
    let key = sha256(&key_input)[..16].to_vec();

    // phase 3: clientchallenge
    let challenge_plain = vec![0x42u8; 16];
    let challenge_cipher = ecb(&challenge_plain, &key, openssl::symm::Mode::Encrypt);
    let mut params = empty_params();
    params.uniqueid = Some(b"abc".to_vec());
    params.clientchallenge = Some(hex::encode(&challenge_cipher).into_bytes());
    let reply = pair(&mut store, &server, &params).unwrap();
    let challenge_response_hex = match reply {
        PairResponse::ChallengeResponse(v) => v,
        _ => panic!("expected a challenge response"),
    };
    let response_plain = ecb(
        &hex::decode(&challenge_response_hex).unwrap(),
        &key,
        openssl::symm::Mode::Decrypt,
    );
    assert_eq!(response_plain.len(), 48);
    let server_challenge = response_plain[32..48].to_vec();

    // phase 4: serverchallengeresp
    let client_cert = openssl::x509::X509::from_pem(&client_cert_pem).unwrap();
    let client_secret = vec![0x24u8; 16];
    let mut hash_input = server_challenge.clone();
    hash_input.extend_from_slice(client_cert.signature().as_slice());
    hash_input.extend_from_slice(&client_secret);
    let client_hash = sha256(&hash_input);
    let resp_cipher = ecb(&client_hash, &key, openssl::symm::Mode::Encrypt);
    let mut params = empty_params();
    params.uniqueid = Some(b"abc".to_vec());
    params.serverchallengeresp = Some(hex::encode(&resp_cipher).into_bytes());
    let reply = pair(&mut store, &server, &params).unwrap();
    let pairing_secret_hex = match reply {
        PairResponse::PairingSecret(v) => v,
        _ => panic!("expected the pairing secret"),
    };
    let pairing_secret = hex::decode(&pairing_secret_hex).unwrap();
    assert_eq!(pairing_secret.len(), 16 + 256);
    let server_secret = &pairing_secret[..16];
    let signature = &pairing_secret[16..];

    // the reply binds the server certificate: check the challenge hash
    // and the signature of the server secret
    let server_cert = openssl::x509::X509::from_pem(&server_cert_pem).unwrap();
    let mut expected_input = challenge_plain.clone();
    expected_input.extend_from_slice(server_cert.signature().as_slice());
    expected_input.extend_from_slice(server_secret);
    assert_eq!(&response_plain[..32], &sha256(&expected_input)[..]);
    let server_public = server_cert.public_key().unwrap();
    let mut verifier =
        openssl::sign::Verifier::new(openssl::hash::MessageDigest::sha256(), &server_public)
            .unwrap();
    verifier.update(server_secret).unwrap();
    assert!(verifier.verify(signature).unwrap());

    Exchange {
        store,
        server,
        client_cert_pem,
        key,
        challenge_plain,
        client_secret,
    }
}

#[test]
fn pair_happy_path() {
    let mut ex = run_through_phase_four();

    // phase 5: clientpairingsecret (only the length of the signature
    // part is checked by the server)
    let mut secret = ex.client_secret.clone();
    secret.extend_from_slice(&[0u8; 256]);
    let mut params = empty_params();
    params.uniqueid = Some(b"abc".to_vec());
    params.clientpairingsecret = Some(hex::encode(&secret).into_bytes());
    let reply = pair(&mut ex.store, &ex.server, &params).unwrap();
    assert!(matches!(reply, PairResponse::Paired));

    // pairchallenge succeeds once verified
    let mut params = empty_params();
    params.phrase = Some(PairPhrase::PairChallenge);
    params.uniqueid = Some(b"abc".to_vec());
    let reply = pair(&mut ex.store, &ex.server, &params).unwrap();
    assert!(matches!(reply, PairResponse::Paired));
}

#[test]
fn pair_mitm_rejection() {
    let mut ex = run_through_phase_four();

    // alter the first 16 bytes of the final secret
    let mut secret = ex.client_secret.clone();
    secret[0] ^= 0xff;
    secret.extend_from_slice(&[0u8; 256]);
    let mut params = empty_params();
    params.uniqueid = Some(b"abc".to_vec());
    params.clientpairingsecret = Some(hex::encode(&secret).into_bytes());
    let err = pair(&mut ex.store, &ex.server, &params).unwrap_err();
    assert_eq!(err, PairingError::HashMismatch);

    // no transition to verified: pairchallenge still fails
    let mut params = empty_params();
    params.phrase = Some(PairPhrase::PairChallenge);
    params.uniqueid = Some(b"abc".to_vec());
    let err = pair(&mut ex.store, &ex.server, &params).unwrap_err();
    assert_eq!(err, PairingError::WrongPhase);
}

#[test]
fn unknown_uniqueid_is_rejected() {
    let (cert_pem, key_pem, _) = generate_identity();
    let server = ServerIdentity::from_pem(cert_pem, key_pem).unwrap();
    let mut store = ClientStore::new();
    let mut params = empty_params();
    params.uniqueid = Some(b"nope".to_vec());
    params.clientchallenge = Some(hex::encode(&[0u8; 16]).into_bytes());
    let err = pair(&mut store, &server, &params).unwrap_err();
    assert_eq!(err, PairingError::UnknownClient);
}

#[test]
fn missing_parameters_are_rejected() {
    let (cert_pem, key_pem, _) = generate_identity();
    let server = ServerIdentity::from_pem(cert_pem, key_pem).unwrap();
    let mut store = ClientStore::new();

    let params = empty_params();
    let err = get_server_cert(&mut store, &server, &params).unwrap_err();
    assert_eq!(err, PairingError::MissingParameter);

    let err = pin(&mut store, &Some(b"abc".to_vec()), &None).unwrap_err();
    assert_eq!(err, PairingError::MissingParameter);

    let err = pair(&mut store, &server, &params).unwrap_err();
    assert_eq!(err, PairingError::UnrecognizedRequest);

    let mut params = empty_params();
    params.phrase = Some(PairPhrase::Unknown);
    let err = pair(&mut store, &server, &params).unwrap_err();
    assert_eq!(err, PairingError::UnrecognizedRequest);
}

#[test]
fn malformed_hex_and_sizes_are_rejected() {
    let (cert_pem, key_pem, _) = generate_identity();
    let (client_cert_pem, _, _) = generate_identity();
    let server = ServerIdentity::from_pem(cert_pem, key_pem).unwrap();
    let mut store = ClientStore::new();

    // odd-length salt hex
    let mut params = empty_params();
    params.uniqueid = Some(b"abc".to_vec());
    params.clientcert = Some(hex::encode(&client_cert_pem).into_bytes());
    params.salt = Some(b"00112".to_vec());
    let err = get_server_cert(&mut store, &server, &params).unwrap_err();
    assert_eq!(err, PairingError::BadHex);

    // non-digit in the salt
    params.salt = Some(b"zz112233445566778899aabbccddeeff".to_vec());
    let err = get_server_cert(&mut store, &server, &params).unwrap_err();
    assert_eq!(err, PairingError::BadHex);

    // salt of the wrong size
    params.salt = Some(b"00112233445566778899aabbccdd".to_vec());
    let err = get_server_cert(&mut store, &server, &params).unwrap_err();
    assert_eq!(err, PairingError::BadLength);

    // a clientcert that is hex but no certificate
    params.salt = Some(SALT_HEX.to_vec());
    params.clientcert = Some(hex::encode(b"not a certificate").into_bytes());
    let err = get_server_cert(&mut store, &server, &params).unwrap_err();
    assert_eq!(err, PairingError::BadCertificate);
}

#[test]
fn phases_out_of_order_are_rejected() {
    let (cert_pem, key_pem, _) = generate_identity();
    let (client_cert_pem, _, _) = generate_identity();
    let server = ServerIdentity::from_pem(cert_pem, key_pem).unwrap();
    let mut store = ClientStore::new();

    let mut params = empty_params();
    params.uniqueid = Some(b"abc".to_vec());
    params.clientcert = Some(hex::encode(&client_cert_pem).into_bytes());
    params.salt = Some(SALT_HEX.to_vec());
    get_server_cert(&mut store, &server, &params).unwrap();

    // a challenge before any PIN was set
    let mut params = empty_params();
    params.uniqueid = Some(b"abc".to_vec());
    params.clientchallenge = Some(hex::encode(&[0u8; 16]).into_bytes());
    let err = pair(&mut store, &server, &params).unwrap_err();
    assert_eq!(err, PairingError::WrongPhase);

    // the final secret long before its phase
    let mut params = empty_params();
    params.uniqueid = Some(b"abc".to_vec());
    params.clientpairingsecret = Some(hex::encode(&[0u8; 272]).into_bytes());
    let err = client_pairing_secret(&mut store, &params).unwrap_err();
    assert_eq!(err, PairingError::WrongPhase);

    // pairchallenge before verification
    let mut params = empty_params();
    params.uniqueid = Some(b"abc".to_vec());
    let err = pair_challenge(&mut store, &params).unwrap_err();
    assert_eq!(err, PairingError::WrongPhase);
}

#[test]
fn client_pairing_secret_of_wrong_size_is_rejected() {
    let mut ex = run_through_phase_four();
    let mut secret = ex.client_secret.clone();
    secret.extend_from_slice(&[0u8; 255]);
    let mut params = empty_params();
    params.uniqueid = Some(b"abc".to_vec());
    params.clientpairingsecret = Some(hex::encode(&secret).into_bytes());
    let err = pair(&mut ex.store, &ex.server, &params).unwrap_err();
    assert_eq!(err, PairingError::BadLength);
}

#[test]
fn unpair_removes_the_record() {
    let (cert_pem, key_pem, _) = generate_identity();
    let (client_cert_pem, _, _) = generate_identity();
    let server = ServerIdentity::from_pem(cert_pem, key_pem).unwrap();
    let mut store = ClientStore::new();

    let mut params = empty_params();
    params.uniqueid = Some(b"abc".to_vec());
    params.clientcert = Some(hex::encode(&client_cert_pem).into_bytes());
    params.salt = Some(SALT_HEX.to_vec());
    get_server_cert(&mut store, &server, &params).unwrap();

    unpair(&mut store, &Some(b"abc".to_vec())).unwrap();
    let err = unpair(&mut store, &Some(b"abc".to_vec())).unwrap_err();
    assert_eq!(err, PairingError::UnknownClient);

    // the record is gone: pin is refused
    let err = pin(&mut store, &Some(b"abc".to_vec()), &Some(b"1234".to_vec())).unwrap_err();
    assert_eq!(err, PairingError::UnknownClient);
}

#[test]
fn non_rsa_server_key_cannot_sign_the_pairing_secret() {
    // a server whose private key is EC, not RSA: the first three
    // phases need no signature and pass, the fourth is refused
    let (server_cert_pem, _rsa_key_pem, _) = generate_identity();
    let group =
        openssl::ec::EcGroup::from_curve_name(openssl::nid::Nid::X9_62_PRIME256V1).unwrap();
    let ec_key = openssl::ec::EcKey::generate(&group).unwrap();
    let ec_pkey = openssl::pkey::PKey::from_ec_key(ec_key).unwrap();
    let ec_key_pem = ec_pkey.private_key_to_pem_pkcs8().unwrap();
    let server = ServerIdentity::from_pem(server_cert_pem, ec_key_pem).unwrap();

    let (client_cert_pem, _, _) = generate_identity();
    let mut store = ClientStore::new();
    let mut params = empty_params();
    params.phrase = Some(PairPhrase::GetServerCert);
    params.uniqueid = Some(b"abc".to_vec());
    params.clientcert = Some(hex::encode(&client_cert_pem).into_bytes());
    params.salt = Some(SALT_HEX.to_vec());
    pair(&mut store, &server, &params).unwrap();
    pin(&mut store, &Some(b"abc".to_vec()), &Some(b"1234".to_vec())).unwrap();

    let salt = hex::decode(SALT_HEX).unwrap();
    let mut key_input = salt.clone();
    key_input.extend_from_slice(b"1234");
    let key = sha256(&key_input)[..16].to_vec();
    let challenge_cipher = ecb(&[0x42u8; 16], &key, openssl::symm::Mode::Encrypt);
    let mut params = empty_params();
    params.uniqueid = Some(b"abc".to_vec());
    params.clientchallenge = Some(hex::encode(&challenge_cipher).into_bytes());
    pair(&mut store, &server, &params).unwrap();

    let resp_cipher = ecb(&[0x24u8; 32], &key, openssl::symm::Mode::Encrypt);
    let mut params = empty_params();
    params.uniqueid = Some(b"abc".to_vec());
    params.serverchallengeresp = Some(hex::encode(&resp_cipher).into_bytes());
    let err = pair(&mut store, &server, &params).unwrap_err();
    assert_eq!(err, PairingError::BadKey);
}

#[test]
fn create_key_matches_sha256_of_salt_and_pin() {
    let salt = hex::decode(SALT_HEX).unwrap();
    let key = create_key(&salt, b"1234");
    let mut input = salt.clone();
    input.extend_from_slice(b"1234");
    let expected = &sha256(&input)[..16];
    assert_eq!(key.len(), 16);
    assert_eq!(&key[..], expected);
    // deterministic: the same inputs give the same key
    assert_eq!(create_key(&salt, b"1234"), key);
}

#[test]
fn re_pairing_replaces_the_record() {
    let mut ex = run_through_phase_four();
    // a fresh getservercert for the same id starts the exchange over
    let mut params = empty_params();
    params.phrase = Some(PairPhrase::GetServerCert);
    params.uniqueid = Some(b"abc".to_vec());
    params.clientcert = Some(hex::encode(&ex.client_cert_pem).into_bytes());
    params.salt = Some(SALT_HEX.to_vec());
    pair(&mut ex.store, &ex.server, &params).unwrap();

    // the old exchange state is gone
    let mut params = empty_params();
    params.uniqueid = Some(b"abc".to_vec());
    params.clientchallenge = Some(hex::encode(&ecb(
        &ex.challenge_plain,
        &ex.key,
        openssl::symm::Mode::Encrypt,
    ))
    .into_bytes());
    let err = pair(&mut ex.store, &ex.server, &params).unwrap_err();
    assert_eq!(err, PairingError::WrongPhase);
}
