use secret_store::array::CryptoArray;
use secret_store::keychain::{DeviceKey, KeyChain, PeerKey, TypedPair, TypedPublic, UserKey};
use secret_store::secret_box::{SecretBox, SecretBoxError};

#[test]
fn test_secret_box() {
    let mut alice = KeyChain::new();
    let mut bob = KeyChain::new();

    let dk = TypedPair::<UserKey>::generate();
    bob.insert_public(dk.public());
    alice.insert(dk);

    let dk = TypedPair::<UserKey>::generate();
    alice.insert_public(dk.public());
    bob.insert(dk);

    let value = b"hello world".to_vec();

    let secret = SecretBox::<UserKey>::encrypt(&alice, &value).unwrap();
    let value2 = secret.decrypt(&alice).unwrap();
    assert_eq!(value, value2);
    let value2 = secret.decrypt(&bob).unwrap();
    assert_eq!(value, value2);

    let secret2 = SecretBox::<UserKey>::decode(&secret.encode()).unwrap();
    assert!(secret == secret2);
}

#[test]
fn test_flow() {
    let key = TypedPair::<DeviceKey>::generate();
    let mut chain = KeyChain::new();
    chain.insert(key.clone());
    let other = TypedPair::<DeviceKey>::generate();
    chain.insert_public(other.public());

    let _secret = key.diffie_hellman(&other.public()).unwrap();

    let text = b"a string".to_vec();
    let secret = SecretBox::<DeviceKey>::encrypt(&chain, &text).unwrap();
    let text2 = secret.decrypt(&chain).unwrap();
    assert_eq!(text, text2);
}

#[test]
fn envelope_third_party_cannot_open() {
    let a = TypedPair::<UserKey>::generate();
    let b = TypedPair::<UserKey>::generate();
    let c = TypedPair::<UserKey>::generate();
    let env = SecretBox::<UserKey>::encrypt_for(b"hello world", &[a.public(), b.public()]).unwrap();
    let mut chain_a = KeyChain::new();
    chain_a.insert(a);
    let mut chain_b = KeyChain::new();
    chain_b.insert(b);
    let mut chain_c = KeyChain::new();
    chain_c.insert(c);
    assert_eq!(env.decrypt(&chain_a).unwrap(), b"hello world".to_vec());
    assert_eq!(env.decrypt(&chain_b).unwrap(), b"hello world".to_vec());
    assert_eq!(env.decrypt(&chain_c), Err(SecretBoxError::NoDecryptionKey));
    assert_eq!(env.decrypt(&KeyChain::new()), Err(SecretBoxError::NoDecryptionKey));
}

#[test]
fn envelope_layout() {
    let a = TypedPair::<UserKey>::generate();
    let b = TypedPair::<UserKey>::generate();
    let eph = TypedPair::<UserKey>::generate();
    let key = CryptoArray::<32>::random();
    let env = SecretBox::encrypt_with(b"payload", &[a.public(), b.public()], &key, &eph).unwrap();
    let bytes = env.as_bytes();
    assert_eq!(bytes.len(), 1 + 32 + 2 * 48 + 7);
    assert_eq!(bytes[0], 2);
    assert_eq!(&bytes[1..33], eph.public().as_slice());
    assert_ne!(&bytes[33 + 2 * 48..], &b"payload"[..]);
    assert_ne!(&bytes[33..65], key.as_slice());
}

#[test]
fn envelope_recipient_limits() {
    let none: Vec<TypedPublic<UserKey>> = Vec::new();
    assert_eq!(SecretBox::<UserKey>::encrypt_for(b"x", &none).err(), Some(SecretBoxError::NoRecipients));
    let p = TypedPair::<UserKey>::generate().public();
    let many: Vec<TypedPublic<UserKey>> = (0..256).map(|_| p.clone()).collect();
    assert_eq!(SecretBox::<UserKey>::encrypt_for(b"x", &many).err(), Some(SecretBoxError::TooManyRecipients));
    let most: Vec<TypedPublic<UserKey>> = (0..255).map(|_| p.clone()).collect();
    let env = SecretBox::<UserKey>::encrypt_for(b"x", &most).unwrap();
    assert_eq!(env.as_bytes()[0], 255);
    let bogus = TypedPublic::<UserKey>::new(&[0xffu8; 32]).unwrap();
    assert_eq!(SecretBox::<UserKey>::encrypt_for(b"x", &[bogus]).err(), Some(SecretBoxError::InvalidKey));
    assert_eq!(SecretBox::<UserKey>::encrypt(&KeyChain::new(), b"x").err(), Some(SecretBoxError::NoRecipients));
}

#[test]
fn envelope_malformed_bytes() {
    let a = TypedPair::<UserKey>::generate();
    let mut chain = KeyChain::new();
    chain.insert(a.clone());
    let empty = SecretBox::<UserKey>::from_bytes(Vec::new());
    assert_eq!(empty.decrypt(&chain), Err(SecretBoxError::Truncated));
    let zero = SecretBox::<UserKey>::from_bytes(vec![0u8; 40]);
    assert_eq!(zero.decrypt(&chain), Err(SecretBoxError::NoRecipients));
    let env = SecretBox::<UserKey>::encrypt_for(b"hello", &[a.public()]).unwrap();
    let cut = SecretBox::<UserKey>::from_bytes(env.as_bytes()[..60].to_vec());
    assert_eq!(cut.decrypt(&chain), Err(SecretBoxError::Truncated));
    let short = SecretBox::<UserKey>::from_bytes(env.as_bytes()[..20].to_vec());
    assert_eq!(short.decrypt(&chain), Err(SecretBoxError::Truncated));
    let mut tampered = env.as_bytes().to_vec();
    tampered[33 + 40] ^= 1;
    let tampered = SecretBox::<UserKey>::from_bytes(tampered);
    assert_eq!(tampered.decrypt(&chain), Err(SecretBoxError::NoDecryptionKey));
}

#[test]
fn envelope_persisted_form() {
    let a = TypedPair::<UserKey>::generate();
    let env = SecretBox::<UserKey>::encrypt_for(b"hi", &[a.public()]).unwrap();
    let encoded = env.encode();
    assert_eq!(env.as_bytes().len(), 33 + 48 + 2);
    assert_eq!(encoded.len(), env.as_bytes().len() + 2);
    assert_eq!(&encoded[2..], env.as_bytes());
    let again = SecretBox::<UserKey>::decode(&encoded).unwrap();
    assert_eq!(again.as_bytes(), env.as_bytes());
    let tiny = SecretBox::<UserKey>::from_bytes(vec![1, 2, 3]);
    assert_eq!(tiny.encode(), vec![12, 1, 2, 3]);
}

#[test]
fn envelope_for_edwards_keys() {
    let a = TypedPair::<PeerKey>::generate();
    let b = TypedPair::<PeerKey>::generate();
    let env = SecretBox::<PeerKey>::encrypt_for(b"edwards", &[a.public(), b.public()]).unwrap();
    let mut chain = KeyChain::new();
    chain.insert(b);
    assert_eq!(env.decrypt(&chain).unwrap(), b"edwards".to_vec());
    let mut device_only = KeyChain::new();
    device_only.insert(TypedPair::<DeviceKey>::generate());
    assert_eq!(env.decrypt(&device_only), Err(SecretBoxError::NoDecryptionKey));
}

#[test]
fn envelope_compact_length_prefixes() {
    let mid = SecretBox::<UserKey>::from_bytes(vec![0u8; 64]).encode();
    assert_eq!(&mid[..2], &[1, 1]);
    assert_eq!(mid.len(), 66);
    let big = SecretBox::<UserKey>::from_bytes(vec![0u8; 16384]).encode();
    assert_eq!(&big[..4], &[2, 0, 1, 0]);
    assert_eq!(SecretBox::<UserKey>::decode(&big).unwrap().as_bytes().len(), 16384);
}
