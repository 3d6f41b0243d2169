use secret_store::array::CryptoArray;
use secret_store::codec::{CidBytes, Key, Multicodec, PrefixIter, TreeCodec, DAG_CBOR, SCALE_TREE};
use secret_store::error::KeystoreError;
use secret_store::generation::Generation;
use secret_store::keychain::{DeviceKey, TypedPair};
use secret_store::keystore::{gen_dir_name, is_stale_entry, parse_gen_dir_name, Keystore};
use secret_store::types::{Mask, NoiseHash, Password, RandomKey, NOISE_LEN};

#[test]
fn test_keystore() {
    let mut store = Keystore::<DeviceKey>::new();

    let key = TypedPair::generate();
    store.set_device_key(&key, "password", false).unwrap();

    let key2 = store.device_key().unwrap();
    assert!(key == key2);

    let (rp1, gen) = store.password().unwrap();
    assert!(Password::new("password").ct_equals(&rp1));
    assert_eq!(gen, 0);

    store.lock();
    store.unlock("password").unwrap();
    let key2 = store.device_key().unwrap();
    assert!(key == key2);

    let (mask, gen) = store.change_password_mask("other password").unwrap();
    store.apply_mask(&mask, gen).unwrap();

    store.lock();

    let mut store = Keystore::from_generation(store.into_generation());
    store.unlock("other password").unwrap();
    let key2 = store.device_key().unwrap();
    assert!(key == key2);

    store.lock();
    assert_eq!(store.unlock("wrong password").err(), Some(KeystoreError::PasswordMissmatch));
    assert_eq!(store.device_key().err(), Some(KeystoreError::Locked));
}

#[test]
fn keystore_lifecycle() {
    let mut store = Keystore::<DeviceKey>::new();
    assert!(!store.is_initialized());
    assert_eq!(store.device_key().err(), Some(KeystoreError::Uninitialized));
    assert_eq!(store.unlock("pw").err(), Some(KeystoreError::Uninitialized));
    let k = TypedPair::generate();
    store.set_device_key(&k, "pw", false).unwrap();
    assert!(store.is_initialized());
    assert!(store.device_key().unwrap() == k);
    let other = TypedPair::generate();
    assert_eq!(store.set_device_key(&other, "pw", false).err(), Some(KeystoreError::Initialized));
    assert!(store.device_key().unwrap() == k);
    store.lock();
    assert_eq!(store.device_key().err(), Some(KeystoreError::Locked));
    assert!(store.unlock("pw").unwrap() == k);
    assert!(store.device_key().unwrap() == k);
    store.lock();
    assert_eq!(store.unlock("wrong").err(), Some(KeystoreError::PasswordMissmatch));
    assert_eq!(store.device_key().err(), Some(KeystoreError::Locked));
    store.set_device_key(&other, "pw", true).unwrap();
    assert!(store.device_key().unwrap() == other);
}

#[test]
fn keystore_rotation() {
    let mut store = Keystore::<DeviceKey>::new();
    let k = TypedPair::generate();
    store.set_device_key(&k, "pw", false).unwrap();
    let (mask, next_gen) = store.change_password_mask("pw2").unwrap();
    assert_eq!(next_gen, 1);
    assert_eq!(mask.len(), 1);
    store.apply_mask(&mask, next_gen).unwrap();
    assert_eq!(store.gen(), 1);
    store.lock();
    assert!(store.unlock("pw2").unwrap() == k);
    assert!(store.device_key().unwrap() == k);
    store.lock();
    assert_eq!(store.unlock("pw").err(), Some(KeystoreError::PasswordMissmatch));
}

#[test]
fn keystore_mask_mismatch() {
    let mut store = Keystore::<DeviceKey>::new();
    let k = TypedPair::generate();
    store.set_device_key(&k, "pw", false).unwrap();
    let (mask, next_gen) = store.change_password_mask("pw2").unwrap();
    for wrong in [0u16, 2, 7, u16::MAX] {
        assert_eq!(store.apply_mask(&mask, wrong).err(), Some(KeystoreError::GenMissmatch));
    }
    assert_eq!(store.gen(), 0);
    assert!(next_gen != 0);
    assert!(store.unlock("pw").unwrap() == k);
}

#[test]
fn masks_join() {
    let a = Password::new("a");
    let b = Password::new("b");
    let c = Password::new("c");
    let ab = a.mask(&b);
    let bc = b.mask(&c);
    let ac = ab.join(&bc);
    assert_eq!(ac.len(), 2);
    assert!(a.apply_mask(&ac).ct_equals(&c));
    let bytes = ac.encode();
    assert_eq!(bytes.len(), 34);
    assert_eq!(&bytes[32..], &[2, 0]);
    let back = Mask::decode(&bytes).unwrap();
    assert_eq!(back.len(), 2);
    assert!(back.0 == ac.0);
    assert!(Mask::decode(&bytes[..33]).is_err());
    let m = Mask::new(CryptoArray::from_slice(&[9u8; 32]).unwrap());
    assert_eq!(m.len(), 1);
}

#[test]
fn test_noise_file() {
    let noise: Vec<u8> = (0..NOISE_LEN as u32).map(|i| (i * 7 % 251) as u8).collect();
    let n1 = NoiseHash::of_noise(&noise);
    let n2 = NoiseHash::of_noise(&noise);
    assert!(n1.0 == n2.0);
    let zeroed = vec![0u8; noise.len()];
    let n3 = NoiseHash::of_noise(&zeroed);
    assert!(n1.0 != n3.0);
}

#[test]
fn generation_lock_zeroes_noise() {
    let mut g = Generation::<DeviceKey>::new(3);
    let k = TypedPair::generate();
    let pass = Password::new("pw");
    g.initialize_with(&k, &pass, RandomKey::generate(), vec![5u8; NOISE_LEN], CryptoArray::random()).unwrap();
    assert!(g.device_key().unwrap() == k);
    assert!(g.password().unwrap().ct_equals(&pass));
    g.lock();
    assert_eq!(g.noise().as_ref().unwrap(), &vec![0u8; NOISE_LEN]);
    assert_eq!(g.device_key().err(), Some(KeystoreError::Locked));
    assert!(g.unlock_with(&pass, vec![6u8; NOISE_LEN]).unwrap() == k);
    assert_eq!(g.gen(), 3);
}

#[test]
fn generation_directory_names() {
    assert_eq!(gen_dir_name(0), b"0".to_vec());
    assert_eq!(gen_dir_name(407), b"407".to_vec());
    assert_eq!(gen_dir_name(u16::MAX), b"65535".to_vec());
    assert_eq!(parse_gen_dir_name(b"407"), Ok(407));
    assert_eq!(parse_gen_dir_name(b"+12"), Ok(12));
    assert_eq!(parse_gen_dir_name(b"65535"), Ok(65535));
    assert_eq!(parse_gen_dir_name(b"65536"), Err(KeystoreError::Corrupted));
    assert_eq!(parse_gen_dir_name(b""), Err(KeystoreError::Corrupted));
    assert_eq!(parse_gen_dir_name(b"+"), Err(KeystoreError::Corrupted));
    assert_eq!(parse_gen_dir_name(b"1a"), Err(KeystoreError::Corrupted));
    assert_eq!(parse_gen_dir_name(b"gen"), Err(KeystoreError::Corrupted));
    assert!(!is_stale_entry(b"gen", 4));
    assert!(!is_stale_entry(b"4", 4));
    assert!(is_stale_entry(b"3", 4));
    assert!(is_stale_entry(b"gen_new", 4));
}

#[test]
fn database_keys() {
    assert_eq!(Key::key(0x01020304, b"ab"), vec![0, 1, 2, 3, 4, b'a', b'b']);
    assert_eq!(Key::key(7, b""), vec![0, 0, 0, 0, 7]);
    assert_eq!(Key::hash_key(&[9, 8]), vec![1, 9, 8]);
}

#[test]
fn prefixes_of_fields() {
    let fields = [".number", ".prev"];
    let mut it = PrefixIter::new("block", &fields);
    assert_eq!(it.next(), Some("block.number".to_string()));
    assert_eq!(it.next(), Some("block.prev".to_string()));
    assert_eq!(it.next(), None);
}

#[test]
fn codec_codes() {
    assert_eq!(Multicodec::from_code(DAG_CBOR), Ok(Multicodec::DagCbor));
    assert_eq!(Multicodec::from_code(SCALE_TREE), Ok(Multicodec::Tree));
    assert!(Multicodec::from_code(0x55).is_err());
    assert_eq!(Multicodec::Tree.code(), 0x01);
    assert_eq!(Multicodec::DagCbor.code(), 0x71);
    assert_eq!(TreeCodec.code(), 0x01);
    assert_eq!(Multicodec::from_tree_codec(TreeCodec), Multicodec::Tree);
}

#[test]
fn cid_bytes() {
    let zero = CidBytes::default();
    assert_eq!(zero.as_slice(), &[0u8; 38][..]);
    assert!(CidBytes::from_bytes(&[0u8; 37]).is_err());
    let c = CidBytes::from_bytes(&[1u8; 38]).unwrap();
    assert!(c != zero);
    assert!(c == CidBytes::from_bytes(&[1u8; 38]).unwrap());
}

/// The key operations that foreign-function bindings expose: is the store
/// initialized, set its key, lock it and unlock it.
#[test]
fn test_impl_ffi_macro() {
    let mut store = Keystore::<DeviceKey>::new();
    assert!(!store.is_initialized());
    let key = TypedPair::generate();
    store.set_device_key(&key, "password", false).unwrap();
    assert!(store.is_initialized());
    store.lock();
    assert!(store.unlock("password").unwrap() == key);
}

#[test]
fn unlock_without_commitment_changes_nothing() {
    let mut g = Generation::<DeviceKey>::new(0);
    assert_eq!(g.unlock_with(&Password::new("pw"), vec![1u8; NOISE_LEN]).err(), Some(KeystoreError::Uninitialized));
    assert!(g.noise().is_none());
    assert!(g.encrypted_random_key().is_none());
}
