use secret_store::array::CryptoArray;
use secret_store::cipher::CipherText;
use secret_store::error::{DecryptError, InvalidSuri, KeySizeMissmatch, NotEnoughEntropyError};
use secret_store::keychain::{DeviceKey, KeyChain, PeerKey, TypedPair, TypedPublic, UserKey};

#[test]
fn test_encode_decode() {
    let key = CryptoArray::<32>::random();
    let key2 = CryptoArray::<32>::decode(&key.encode()).unwrap();
    assert!(key == key2);
}

#[test]
fn sr25519_dh() {
    let sk1 = TypedPair::<DeviceKey>::generate();
    let sk2 = TypedPair::<DeviceKey>::generate();
    let s1 = sk1.diffie_hellman(&sk2.public()).unwrap();
    let s2 = sk2.diffie_hellman(&sk1.public()).unwrap();
    assert!(s1 == s2);
}

#[test]
fn dh_differs_between_peers() {
    let a = TypedPair::<DeviceKey>::generate();
    let b = TypedPair::<DeviceKey>::generate();
    let c = TypedPair::<DeviceKey>::generate();
    let ab = a.diffie_hellman(&b.public()).unwrap();
    let ac = a.diffie_hellman(&c.public()).unwrap();
    assert!(ab != ac);
    assert_eq!(ab.as_slice().len(), 32);
}

#[test]
fn dh_rejects_bytes_that_are_no_point() {
    let a = TypedPair::<DeviceKey>::generate();
    let bogus = TypedPublic::<DeviceKey>::new(&[0xffu8; 32]).unwrap();
    assert!(a.diffie_hellman(&bogus).is_err());
}

#[test]
fn public_key_depends_on_seed_only() {
    let seed = CryptoArray::<32>::from_slice(&[7u8; 32]).unwrap();
    let a = TypedPair::<DeviceKey>::from_seed(seed.clone());
    let b = TypedPair::<DeviceKey>::from_seed(seed);
    assert!(a.public() == b.public());
    assert_ne!(a.public().as_slice(), &[7u8; 32][..]);
    assert_eq!(a.public().as_slice().len(), 32);
}

#[test]
fn seal_open_round_trip() {
    let secret = CryptoArray::<32>::random();
    let key = CryptoArray::<32>::random();
    let sealed: CipherText<32, 32, 24, 16> = secret.encrypt(&key);
    let opened = sealed.decrypt(&key).unwrap();
    assert!(opened == secret);
}

#[test]
fn sealing_hides_the_secret() {
    let secret = CryptoArray::<32>::from_slice(&[1u8; 32]).unwrap();
    let key = CryptoArray::<32>::random();
    let sealed: CipherText<32, 32, 24, 16> = secret.encrypt(&key);
    let bytes = sealed.encode();
    assert_eq!(bytes.len(), 32 + 24 + 16);
    assert_ne!(&bytes[..32], &[1u8; 32][..]);
}

#[test]
fn tampering_makes_decrypt_fail() {
    let secret = CryptoArray::<32>::random();
    let key = CryptoArray::<32>::random();
    let sealed: CipherText<32, 32, 24, 16> = secret.encrypt(&key);
    let bytes = sealed.encode();
    for pos in [0usize, 31, 32, 55, 56, 71] {
        let mut bad = bytes.clone();
        bad[pos] ^= 1;
        let c = CipherText::<32, 32, 24, 16>::decode(&bad).unwrap();
        assert_eq!(c.decrypt(&key).err(), Some(DecryptError));
    }
    let other = CryptoArray::<32>::random();
    assert_eq!(sealed.decrypt(&other).err(), Some(DecryptError));
}

#[test]
fn cipher_codec_round_trip() {
    let secret = CryptoArray::<32>::random();
    let key = CryptoArray::<32>::random();
    let sealed: CipherText<32, 32, 24, 16> = secret.encrypt(&key);
    let again = CipherText::<32, 32, 24, 16>::decode(&sealed.encode()).unwrap();
    assert_eq!(again.encode(), sealed.encode());
    assert!(again.decrypt(&key).unwrap() == secret);
    assert!(CipherText::<32, 32, 24, 16>::decode(&sealed.encode()[..71]).is_err());
}

#[test]
fn untagged_sealing_always_opens() {
    let secret = CryptoArray::<32>::random();
    let key = CryptoArray::<32>::random();
    let sealed: CipherText<32, 32, 0, 0> = secret.encrypt(&key);
    assert!(sealed.decrypt(&key).unwrap() == secret);
    assert!(sealed.decrypt(&CryptoArray::<32>::random()).is_ok());
}

#[test]
fn xor_is_bitwise() {
    let a = CryptoArray::<4>::from_slice(&[0x0f, 0xff, 0x00, 0xaa]).unwrap();
    let b = CryptoArray::<4>::from_slice(&[0xf0, 0x0f, 0x00, 0xaa]).unwrap();
    assert_eq!(a.xor(&b).as_slice(), &[0xff, 0xf0, 0x00, 0x00]);
    assert!(a.xor(&b).xor(&b) == a);
}

#[test]
fn kdf_is_deterministic_and_separated() {
    let k1 = CryptoArray::<32>::kdf("password");
    let k2 = CryptoArray::<32>::kdf("password");
    let k3 = CryptoArray::<32>::kdf("other password");
    let h = CryptoArray::<32>::hash(b"password");
    assert!(k1 == k2);
    assert!(k1 != k3);
    assert!(k1 != h);
    assert!(CryptoArray::<32>::hash(b"password") == h);
}

#[test]
fn from_slice_checks_length() {
    assert!(CryptoArray::<32>::from_slice(&[0u8; 31]).err() == Some(KeySizeMissmatch));
    assert!(CryptoArray::<32>::from_slice(&[0u8; 33]).is_err());
    assert_eq!(CryptoArray::<32>::from_slice(&[3u8; 32]).unwrap().as_slice(), &[3u8; 32][..]);
}

#[test]
fn entropy_must_cover_the_secret() {
    assert!(CryptoArray::<32>::from_entropy(&[1u8; 16]).err() == Some(NotEnoughEntropyError));
    let e: Vec<u8> = (0u8..40).collect();
    assert_eq!(CryptoArray::<32>::from_entropy(&e).unwrap().as_slice(), &e[..32]);
}

#[test]
fn mnemonic_entropy_becomes_seed() {
    let entropy: Vec<u8> = (0u8..32).collect();
    let m = bip39::Mnemonic::from_entropy(&entropy).unwrap();
    let pair = TypedPair::<UserKey>::from_mnemonic(&m).unwrap();
    assert_eq!(pair.seed().as_slice(), &entropy[..]);
    let short = bip39::Mnemonic::from_entropy(&entropy[..16]).unwrap();
    assert!(TypedPair::<UserKey>::from_mnemonic(&short).is_err());
    assert!(CryptoArray::<16>::from_mnemonic(&short).is_ok());
}

#[test]
fn constant_time_equality() {
    let a = CryptoArray::<8>::from_slice(&[1, 2, 3, 4, 5, 6, 7, 8]).unwrap();
    let b = CryptoArray::<8>::from_slice(&[1, 2, 3, 4, 5, 6, 7, 9]).unwrap();
    assert!(a.ct_equals(&a.clone()));
    assert!(!a.ct_equals(&b));
}

#[test]
fn keychain_holds_one_key_per_role() {
    let mut chain = KeyChain::new();
    assert!(chain.get::<DeviceKey>().is_none());
    let d1 = TypedPair::<DeviceKey>::generate();
    let d2 = TypedPair::<DeviceKey>::generate();
    let u = TypedPair::<UserKey>::generate();
    chain.insert(d1.clone());
    chain.insert(u.clone());
    assert!(chain.get::<DeviceKey>().unwrap() == d1);
    chain.insert(d2.clone());
    assert!(chain.get::<DeviceKey>().unwrap() == d2);
    assert!(chain.get::<UserKey>().unwrap() == u);
    chain.remove::<DeviceKey>();
    assert!(chain.get::<DeviceKey>().is_none());
    assert!(chain.get::<UserKey>().is_some());
    let publics = chain.get_public::<DeviceKey>();
    assert_eq!(publics.len(), 2);
    assert!(publics[0] == d1.public());
    assert!(publics[1] == d2.public());
    chain.insert_public(d1.public());
    assert_eq!(chain.get_public::<DeviceKey>().len(), 2);
    assert_eq!(chain.get_public::<UserKey>().len(), 1);
}

#[test]
fn ed25519_dh() {
    let sk1 = TypedPair::<PeerKey>::generate();
    let sk2 = TypedPair::<PeerKey>::generate();
    let s1 = sk1.diffie_hellman(&sk2.public()).unwrap();
    let s2 = sk2.diffie_hellman(&sk1.public()).unwrap();
    assert!(s1 == s2);
}

fn unhex(s: &str) -> Vec<u8> {
    (0..s.len()).step_by(2).map(|i| u8::from_str_radix(&s[i..i + 2], 16).unwrap()).collect()
}

#[test]
fn ed25519_public_key_vector() {
    let seed = unhex("9d61b19deffd5a60ba844af492ec2cc44449c5697b326919703bac031cae7f60");
    let pair = TypedPair::<PeerKey>::from_seed(CryptoArray::from_slice(&seed).unwrap());
    let expected = unhex("d75a980182b10ab7d54bfed3c964073a0ee172f3daa62325af021a68f707511a");
    assert_eq!(pair.public().as_slice(), &expected[..]);
}

#[test]
fn curves_give_different_keys() {
    let seed = CryptoArray::<32>::from_slice(&[5u8; 32]).unwrap();
    let a = TypedPair::<PeerKey>::from_seed(seed.clone());
    let b = TypedPair::<DeviceKey>::from_seed(seed);
    assert_ne!(a.public().as_slice(), b.public().as_slice());
}

#[test]
fn key_pair_codec_round_trip() {
    let pair = TypedPair::<DeviceKey>::generate();
    let again = TypedPair::<DeviceKey>::decode(&pair.encode()).unwrap();
    assert!(again == pair);
    assert!(again.public() == pair.public());
    assert!(TypedPair::<DeviceKey>::decode(&[0u8; 31]).is_err());
}

#[test]
fn sealed_key_pair_round_trip() {
    let pair = TypedPair::<UserKey>::generate();
    let key = CryptoArray::<32>::random();
    let sealed = pair.encrypt(&key);
    assert!(TypedPair::<UserKey>::decrypt(&sealed, &key).unwrap() == pair);
    assert!(TypedPair::<UserKey>::decrypt(&sealed, &CryptoArray::random()).is_err());
}

#[test]
fn random_secrets_differ() {
    let a = CryptoArray::<32>::random();
    let b = CryptoArray::<32>::random();
    assert!(a != b);
    assert_ne!(a.as_slice(), &[0u8; 32][..]);
}

#[test]
fn suri_gives_development_keys() {
    let alice = TypedPair::<DeviceKey>::from_suri("//Alice").unwrap();
    let seed = unhex("e5be9a5092b81bca64be81d212e7f2f9eba183bb7a90954f7b76361f6edb5c0a");
    assert_eq!(alice.seed().as_slice(), &seed[..]);
    let public = unhex("d43593c715fdd31c61141abd04a99fd6822c8558854ccde39a5684e7a56da27d");
    assert_eq!(alice.public().as_slice(), &public[..]);
    let edwards = TypedPair::<PeerKey>::from_suri("//Alice").unwrap();
    let ed_public = unhex("88dc3417d5058ec4b4503e0c12ea1a0a89be200fe98922423d4334014fa6b0ee");
    assert_eq!(edwards.public().as_slice(), &ed_public[..]);
}

#[test]
fn suri_hex_seed_and_failures() {
    let hex_seed = format!("0x{}", "01".repeat(32));
    let pair = TypedPair::<DeviceKey>::from_suri(&hex_seed).unwrap();
    assert_eq!(pair.seed().as_slice(), &[1u8; 32][..]);
    assert!(matches!(TypedPair::<DeviceKey>::from_suri("//Alice/soft"), Err(InvalidSuri::NoSeed)));
    assert!(matches!(TypedPair::<DeviceKey>::from_suri("not a valid phrase"), Err(InvalidSuri::Secret(_))));
}

#[test]
fn edwards_seed_to_montgomery_secret() {
    let seed = CryptoArray::<32>::from_slice(&[9u8; 32]).unwrap();
    let sk = secret_store::ed25519::ed25519_to_x25519_sk(&seed);
    let digest = <sha2::Sha512 as sha2::Digest>::digest([9u8; 32]);
    assert_eq!(sk.as_slice(), &digest[..32]);
}
