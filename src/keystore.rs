//! A keystore: the generation that is current, and the rules for
//! replacing it.  Writing generations to disk, pointing the `gen` link at
//! the current one and removing stale ones is left to the caller.
use crate::array::{xor_seq, CryptoArray};
use crate::error::KeystoreError;
use crate::generation::Generation;
use crate::keychain::{KeyType, TypedPair};
use crate::types::{password_key, Mask, Password, RandomKey, NOISE_LEN};
use vstd::prelude::*;

verus! {

/// The ASCII decimal digits of `n`, without leading zeros.
pub open spec fn decimal(n: nat) -> Seq<u8>
    decreases n,
{
    if n < 10 {
        seq![(48 + n) as u8]
    } else {
        decimal(n / 10).push((48 + n % 10) as u8)
    }
}

/// The number that a string of ASCII decimal digits spells.
pub open spec fn digits_value(s: Seq<u8>) -> nat
    decreases s.len(),
{
    if s.len() == 0 {
        0
    } else {
        digits_value(s.drop_last()) * 10 + (s.last() - 48) as nat
    }
}

pub open spec fn all_digits(s: Seq<u8>) -> bool {
    forall|i: int| 0 <= i < s.len() ==> 48 <= #[trigger] s[i] <= 57
}

/// The digits of a generation directory name: the name without one
/// leading `+`.
pub open spec fn name_digits(name: Seq<u8>) -> Seq<u8> {
    if name.len() > 0 && name[0] == 43 {
        name.drop_first()
    } else {
        name
    }
}

/// The name is a generation number: an optional `+`, then at least one
/// decimal digit, with a value that fits 16 bits.
pub open spec fn is_gen_name(name: Seq<u8>) -> bool {
    let d = name_digits(name);
    d.len() > 0 && all_digits(d) && digits_value(d) <= u16::MAX
}

/// The decimal name of a generation's directory.
pub fn gen_dir_name(gen: u16) -> (r: Vec<u8>)
    ensures
        r@ == decimal(gen as nat),
    decreases gen,
{
    if gen < 10 {
        vec![48u8 + gen as u8]
    } else {
        let mut v = gen_dir_name(gen / 10);
        v.push(48u8 + (gen % 10) as u8);
        v
    }
}

/// The generation number a directory name stands for.
pub fn parse_gen_dir_name(name: &[u8]) -> (r: Result<u16, KeystoreError>)
    ensures
        r is Ok <==> is_gen_name(name@),
        r matches Ok(g) ==> g as nat == digits_value(name_digits(name@)),
        r is Err ==> r == Err::<u16, KeystoreError>(KeystoreError::Corrupted),
{
    let start: usize = if name.len() > 0 && name[0] == 43u8 { 1 } else { 0 };
    let ghost d = name_digits(name@);
    assert(d =~= name@.subrange(start as int, name@.len() as int));
    if start >= name.len() {
        assert(d.len() == 0);
        return Err(KeystoreError::Corrupted);
    }
    let mut acc: u32 = 0;
    let mut i: usize = start;
    while i < name.len()
        invariant
            start <= i <= name@.len(),
            d == name_digits(name@),
            d == name@.subrange(start as int, name@.len() as int),
            all_digits(name@.subrange(start as int, i as int)),
            acc as nat == (if digits_value(name@.subrange(start as int, i as int)) < 65536 {
                digits_value(name@.subrange(start as int, i as int))
            } else {
                65536
            }),
        decreases name@.len() - i,
    {
        let c = name[i];
        if c < 48u8 || c > 57u8 {
            assert(d[i - start] == c);
            assert(!all_digits(d));
            assert(name_digits(name@) == d);
            return Err(KeystoreError::Corrupted);
        }
        let ghost prev = name@.subrange(start as int, i as int);
        let ghost next = name@.subrange(start as int, i + 1);
        assert(next.drop_last() =~= prev);
        assert(next.last() == c);
        let v = acc * 10 + (c - 48u8) as u32;
        acc = if v > 65536 { 65536 } else { v };
        proof {
            let pv = digits_value(prev);
            assert(digits_value(next) == pv * 10 + (c - 48) as nat);
            if pv >= 65536 {
                assert(pv * 10 >= 65536) by (nonlinear_arith)
                    requires
                        pv >= 65536,
                ;
            }
            assert forall|j: int| 0 <= j < next.len() implies 48 <= #[trigger] next[j] <= 57 by {
                if j < prev.len() {
                    assert(next[j] == prev[j]);
                }
            }
        }
        i += 1;
    }
    assert(name@.subrange(start as int, i as int) =~= d);
    if acc > 65535 {
        return Err(KeystoreError::Corrupted);
    }
    Ok(acc as u16)
}

proof fn lemma_decimal(n: nat)
    ensures
        decimal(n).len() > 0,
        all_digits(decimal(n)),
        digits_value(decimal(n)) == n,
        decimal(n)[0] != 43,
    decreases n,
{
    if n < 10 {
        assert(decimal(n).drop_last() =~= Seq::<u8>::empty());
        assert(((48 + n) as u8) as int == 48 + n);
        assert(digits_value(decimal(n)) == digits_value(decimal(n).drop_last()) * 10 + (decimal(n).last() - 48) as nat);
    } else {
        lemma_decimal(n / 10);
        let d = decimal(n);
        assert(d.drop_last() =~= decimal(n / 10));
        assert(d.last() == (48 + n % 10) as u8);
        assert(((48 + n % 10) as u8) as int == 48 + n % 10);
        assert(digits_value(d) == digits_value(d.drop_last()) * 10 + (d.last() - 48) as nat);
        assert((n / 10) * 10 + n % 10 == n) by (nonlinear_arith);
        assert forall|i: int| 0 <= i < d.len() implies 48 <= #[trigger] d[i] <= 57 by {
            if i < d.len() - 1 {
                assert(d[i] == decimal(n / 10)[i]);
            }
        }
        assert(d[0] == decimal(n / 10)[0]);
    }
}

/// The name written for a generation reads back as that generation.
pub proof fn lemma_gen_dir_name_round_trip(gen: u16)
    ensures
        is_gen_name(decimal(gen as nat)),
        digits_value(name_digits(decimal(gen as nat))) == gen as nat,
{
    lemma_decimal(gen as nat);
}

/// An entry of the keystore directory that garbage collection removes:
/// anything but the `gen` link and the current generation's directory.
pub open spec fn is_stale(name: Seq<u8>, current: u16) -> bool {
    name != seq![103u8, 101, 110] && name != decimal(current as nat)
}

/// Whether garbage collection removes the directory entry `name`.
pub fn is_stale_entry(name: &[u8], current: u16) -> (r: bool)
    ensures
        r == is_stale(name@, current),
{
    let link: Vec<u8> = vec![103u8, 101, 110];
    let own = gen_dir_name(current);
    !crate::array::ct_eq(name, link.as_slice()) && !crate::array::ct_eq(name, own.as_slice())
}

/// The keystore of a device key of role `K`.
pub struct Keystore<K> {
    current: Generation<K>,
}

impl<K: KeyType> Keystore<K> {
    /// The generation the `gen` link points at.
    pub closed spec fn current(&self) -> Generation<K> {
        self.current
    }

    pub open spec fn wf(&self) -> bool {
        self.current().wf()
    }

    /// A keystore with no generation written: generation 0, empty.
    pub fn new() -> (r: Self)
        ensures
            r.wf(),
            r.current().gen_number() == 0,
            r.current().edk_file() is None,
            r.current().pdk_file() is None,
    {
        Keystore { current: Generation::new(0) }
    }

    /// The keystore whose current generation is `current`.
    pub fn from_generation(current: Generation<K>) -> (r: Self)
        requires
            current.wf(),
        ensures
            r.wf(),
            r.current() == current,
    {
        Keystore { current }
    }

    /// Gives up the keystore for its current generation.
    pub fn into_generation(self) -> (r: Generation<K>)
        ensures
            r == self.current(),
    {
        self.current
    }

    /// The current generation.
    pub fn generation(&self) -> (r: &Generation<K>)
        ensures
            *r == self.current(),
    {
        &self.current
    }

    /// The keystore holds a device key.
    pub fn is_initialized(&self) -> (r: bool)
        ensures
            r == self.current().edk_file() is Some,
    {
        self.current.is_initialized()
    }

    /// The current generation number.
    pub fn gen(&self) -> (r: u16)
        ensures
            r == self.current().gen_number(),
    {
        self.current.gen()
    }

    /// Makes generation `gen` current, written for `dk` and `pass` with the
    /// given random key, noise and nonce.
    fn create_gen_with(
        &mut self,
        dk: &TypedPair<K>,
        pass: &Password,
        gen: u16,
        rk: RandomKey,
        noise: Vec<u8>,
        nonce: CryptoArray<24>,
    )
        requires
            dk.wf(),
            pass.0.wf(),
            rk.0.wf(),
            nonce.wf(),
            noise@.len() == NOISE_LEN,
        ensures
            final(self).wf(),
            final(self).current().gen_number() == gen,
            final(self).current().unlocked_with(dk.seed_bytes(), rk.0@, pass.0@),
    {
        let mut next = Generation::new(gen);
        let _ = next.initialize_with(dk, pass, rk, noise, nonce);
        self.current = next;
    }

    /// Writes the device key `dk` under `password` as generation 0, with
    /// the given random key, noise and nonce.  Refuses to replace a key
    /// unless `force` is set.
    pub fn set_device_key_with(
        &mut self,
        dk: &TypedPair<K>,
        password: &str,
        force: bool,
        rk: RandomKey,
        noise: Vec<u8>,
        nonce: CryptoArray<24>,
    ) -> (r: Result<(), KeystoreError>)
        requires
            old(self).wf(),
            dk.wf(),
            rk.0.wf(),
            nonce.wf(),
            noise@.len() == NOISE_LEN,
        ensures
            final(self).wf(),
            r is Err <==> !force && old(self).current().edk_file() is Some,
            r is Err ==> r == Err::<(), KeystoreError>(KeystoreError::Initialized) && *final(self) == *old(self),
            r is Ok ==> final(self).current().gen_number() == 0 && final(self).current().unlocked_with(
                dk.seed_bytes(),
                rk.0@,
                password_key(password),
            ),
    {
        if !force && self.current.is_initialized() {
            return Err(KeystoreError::Initialized);
        }
        let pass = Password::new(password);
        self.create_gen_with(dk, &pass, 0, rk, noise, nonce);
        Ok(())
    }

    /// Writes the device key `dk` under `password` as generation 0.
    /// Refuses to replace a key unless `force` is set.
    pub fn set_device_key(&mut self, dk: &TypedPair<K>, password: &str, force: bool) -> (r: Result<(), KeystoreError>)
        requires
            old(self).wf(),
            dk.wf(),
        ensures
            final(self).wf(),
            r is Err <==> !force && old(self).current().edk_file() is Some,
            r is Err ==> r == Err::<(), KeystoreError>(KeystoreError::Initialized) && *final(self) == *old(self),
            r is Ok ==> final(self).current().gen_number() == 0 && exists|rk: Seq<u8>|
                final(self).current().unlocked_with(dk.seed_bytes(), rk, password_key(password)),
    {
        let rk = RandomKey::generate();
        let ghost k = rk.0@;
        let noise = crate::array::random_bytes(NOISE_LEN);
        let r = self.set_device_key_with(dk, password, force, rk, noise, CryptoArray::random());
        proof {
            if r is Ok {
                assert(self.current().unlocked_with(dk.seed_bytes(), k, password_key(password)));
            }
        }
        r
    }

    /// Makes generation `gen` current for a fresh device key under `pass`,
    /// and returns that key.
    pub fn provision_device(&mut self, pass: &Password, gen: u16) -> (r: TypedPair<K>)
        requires
            old(self).wf(),
            pass.0.wf(),
        ensures
            r.wf(),
            final(self).wf(),
            final(self).current().gen_number() == gen,
            exists|rk: Seq<u8>| final(self).current().unlocked_with(r.seed_bytes(), rk, pass.0@),
    {
        let dk = TypedPair::generate();
        let rk = RandomKey::generate();
        let ghost k = rk.0@;
        let noise = crate::array::random_bytes(NOISE_LEN);
        self.create_gen_with(&dk, pass, gen, rk, noise, CryptoArray::random());
        assert(self.current().unlocked_with(dk.seed_bytes(), k, pass.0@));
        dk
    }

    /// Locks the current generation.
    pub fn lock(&mut self)
        requires
            old(self).wf(),
        ensures
            final(self).wf(),
            final(self).current().gen_number() == old(self).current().gen_number(),
            final(self).current().edk_file() == old(self).current().edk_file(),
            final(self).current().erk_file() == old(self).current().erk_file(),
            final(self).current().pdk_file() == old(self).current().pdk_file(),
            old(self).current().noise_file() matches Some(n) ==> final(self).current().noise_file() == Some(
                Seq::new(n.len(), |i: int| 0u8),
            ),
    {
        self.current.lock()
    }

    /// Unlocks the current generation with `password`, writing the given
    /// noise blob.
    pub fn unlock_with(&mut self, password: &str, noise: Vec<u8>) -> (r: Result<TypedPair<K>, KeystoreError>)
        requires
            old(self).wf(),
            noise@.len() == NOISE_LEN,
        ensures
            final(self).wf(),
            final(self).current().gen_number() == old(self).current().gen_number(),
            final(self).current().edk_file() == old(self).current().edk_file(),
            final(self).current().pdk_file() == old(self).current().pdk_file(),
            old(self).current().pdk_file() is None ==> r == Err::<TypedPair<K>, KeystoreError>(
                KeystoreError::Uninitialized,
            ) && final(self).current().noise_file() == old(self).current().noise_file()
                && final(self).current().erk_file() == old(self).current().erk_file(),
            old(self).current().pdk_file() is Some && old(self).current().edk_file() is Some ==> (r is Ok
                <==> final(self).current().opens()),
            old(self).current().pdk_file() is Some && old(self).current().edk_file() is Some
                && !final(self).current().opens() ==> r == Err::<TypedPair<K>, KeystoreError>(
                KeystoreError::PasswordMissmatch,
            ),
            r is Err ==> r == Err::<TypedPair<K>, KeystoreError>(KeystoreError::Uninitialized)
                || r == Err::<TypedPair<K>, KeystoreError>(KeystoreError::PasswordMissmatch),
            r matches Ok(p) ==> p.wf() && p.seed_bytes() == final(self).current().device_seed(),
            forall|dk: Seq<u8>, rk: Seq<u8>|
                old(self).current().sealed_with(dk, rk, password_key(password)) ==> (r matches Ok(p)
                    && p.seed_bytes() == dk && final(self).current().unlocked_with(dk, rk, password_key(password))),
    {
        let pass = Password::new(password);
        self.current.unlock_with(&pass, noise)
    }

    /// Unlocks the current generation with `password`.
    pub fn unlock(&mut self, password: &str) -> (r: Result<TypedPair<K>, KeystoreError>)
        requires
            old(self).wf(),
        ensures
            final(self).wf(),
            final(self).current().gen_number() == old(self).current().gen_number(),
            final(self).current().edk_file() == old(self).current().edk_file(),
            final(self).current().pdk_file() == old(self).current().pdk_file(),
            old(self).current().pdk_file() is None ==> r == Err::<TypedPair<K>, KeystoreError>(
                KeystoreError::Uninitialized,
            ) && final(self).current().noise_file() == old(self).current().noise_file()
                && final(self).current().erk_file() == old(self).current().erk_file(),
            old(self).current().pdk_file() is Some && old(self).current().edk_file() is Some ==> (r is Ok
                <==> final(self).current().opens()),
            old(self).current().pdk_file() is Some && old(self).current().edk_file() is Some
                && !final(self).current().opens() ==> r == Err::<TypedPair<K>, KeystoreError>(
                KeystoreError::PasswordMissmatch,
            ),
            r is Err ==> r == Err::<TypedPair<K>, KeystoreError>(KeystoreError::Uninitialized)
                || r == Err::<TypedPair<K>, KeystoreError>(KeystoreError::PasswordMissmatch),
            r matches Ok(p) ==> p.wf() && p.seed_bytes() == final(self).current().device_seed(),
            forall|dk: Seq<u8>, rk: Seq<u8>|
                old(self).current().sealed_with(dk, rk, password_key(password)) ==> (r matches Ok(p)
                    && p.seed_bytes() == dk && final(self).current().unlocked_with(dk, rk, password_key(password))),
    {
        let noise = crate::array::random_bytes(NOISE_LEN);
        self.unlock_with(password, noise)
    }

    /// The device key of the current generation.
    pub fn device_key(&self) -> (r: Result<TypedPair<K>, KeystoreError>)
        requires
            self.wf(),
        ensures
            !self.current().readable() ==> r == Err::<TypedPair<K>, KeystoreError>(KeystoreError::Uninitialized),
            self.current().readable() ==> (r is Ok <==> self.current().opens()),
            self.current().readable() && !self.current().opens() ==> r == Err::<TypedPair<K>, KeystoreError>(
                KeystoreError::Locked,
            ),
            r matches Ok(p) ==> p.wf() && p.seed_bytes() == self.current().device_seed(),
            forall|dk: Seq<u8>, rk: Seq<u8>, pass: Seq<u8>|
                self.current().unlocked_with(dk, rk, pass) ==> (r matches Ok(p) && p.seed_bytes() == dk),
    {
        self.current.device_key()
    }

    /// The password key and the generation number, to hand to a device
    /// being provisioned.
    pub fn password(&self) -> (r: Result<(Password, u16), KeystoreError>)
        requires
            self.wf(),
        ensures
            r is Err ==> r == Err::<(Password, u16), KeystoreError>(KeystoreError::Uninitialized),
            r is Ok <==> self.current().erk_file() is Some && self.current().noise_file() is Some
                && self.current().pdk_file() is Some,
            r matches Ok((p, g)) ==> p.0.wf() && p.0@ == self.current().password_value() && g
                == self.current().gen_number(),
            forall|dk: Seq<u8>, rk: Seq<u8>, pass: Seq<u8>|
                self.current().unlocked_with(dk, rk, pass) ==> (r matches Ok((p, g)) && p.0@ == pass),
    {
        let p = self.current.password()?;
        Ok((p, self.current.gen()))
    }

    /// The mask from the current password to `password`, and the number of
    /// the generation it leads to.
    pub fn change_password_mask(&self, password: &str) -> (r: Result<(Mask, u16), KeystoreError>)
        requires
            self.wf(),
            self.current().gen_number() < u16::MAX,
        ensures
            r is Err ==> r == Err::<(Mask, u16), KeystoreError>(KeystoreError::Uninitialized),
            r is Ok <==> self.current().erk_file() is Some && self.current().noise_file() is Some
                && self.current().pdk_file() is Some,
            r matches Ok((m, g)) ==> m.0.wf() && m.1 == 1 && g == self.current().gen_number() + 1 && m.0@
                == xor_seq(self.current().password_value(), password_key(password)),
            forall|dk: Seq<u8>, rk: Seq<u8>, pass: Seq<u8>|
                self.current().unlocked_with(dk, rk, pass) ==> (r matches Ok((m, g)) && m.0@ == xor_seq(
                    pass,
                    password_key(password),
                )),
    {
        let new_password = Password::new(password);
        let mask = self.current.change_password_mask(&new_password)?;
        Ok((mask, self.current.gen() + 1))
    }

    /// Moves the keystore to generation `next_gen` under the password the
    /// mask leads to, with the given random key, noise and nonce.  The mask
    /// must lead from the current generation to `next_gen`.
    pub fn apply_mask_with(
        &mut self,
        mask: &Mask,
        next_gen: u16,
        rk: RandomKey,
        noise: Vec<u8>,
        nonce: CryptoArray<24>,
    ) -> (r: Result<(), KeystoreError>)
        requires
            old(self).wf(),
            mask.0.wf(),
            rk.0.wf(),
            nonce.wf(),
            noise@.len() == NOISE_LEN,
        ensures
            final(self).wf(),
            (r == Err::<(), KeystoreError>(KeystoreError::GenMissmatch)) <==> old(self).current().gen_number()
                + mask.1 != next_gen,
            r is Err ==> *final(self) == *old(self),
            r is Err ==> r == Err::<(), KeystoreError>(KeystoreError::GenMissmatch) || r == Err::<
                (),
                KeystoreError,
            >(KeystoreError::Locked) || r == Err::<(), KeystoreError>(KeystoreError::Uninitialized),
            old(self).current().gen_number() + mask.1 == next_gen ==> (r is Ok <==> (old(self).current().readable()
                && old(self).current().opens() && old(self).current().pdk_file() is Some)),
            r is Ok ==> final(self).current().gen_number() == next_gen && final(self).current().unlocked_with(
                old(self).current().device_seed(),
                rk.0@,
                xor_seq(old(self).current().password_value(), mask.0@),
            ),
            forall|dk: Seq<u8>, k: Seq<u8>, pass: Seq<u8>|
                old(self).current().unlocked_with(dk, k, pass) && old(self).current().gen_number() + mask.1
                    == next_gen ==> (r is Ok && final(self).current().gen_number() == next_gen
                    && final(self).current().unlocked_with(dk, rk.0@, xor_seq(pass, mask.0@))),
    {
        if self.current.gen() as u32 + mask.len() as u32 != next_gen as u32 {
            return Err(KeystoreError::GenMissmatch);
        }
        let dk = self.current.device_key()?;
        let pass = match self.current.password() {
            Ok(p) => p.apply_mask(mask),
            Err(e) => return Err(e),
        };
        self.create_gen_with(&dk, &pass, next_gen, rk, noise, nonce);
        Ok(())
    }

    /// Moves the keystore to generation `next_gen` under the password the
    /// mask leads to.
    pub fn apply_mask(&mut self, mask: &Mask, next_gen: u16) -> (r: Result<(), KeystoreError>)
        requires
            old(self).wf(),
            mask.0.wf(),
        ensures
            final(self).wf(),
            (r == Err::<(), KeystoreError>(KeystoreError::GenMissmatch)) <==> old(self).current().gen_number()
                + mask.1 != next_gen,
            r is Err ==> *final(self) == *old(self),
            r is Err ==> r == Err::<(), KeystoreError>(KeystoreError::GenMissmatch) || r == Err::<
                (),
                KeystoreError,
            >(KeystoreError::Locked) || r == Err::<(), KeystoreError>(KeystoreError::Uninitialized),
            old(self).current().gen_number() + mask.1 == next_gen ==> (r is Ok <==> (old(self).current().readable()
                && old(self).current().opens() && old(self).current().pdk_file() is Some)),
            r is Ok ==> final(self).current().gen_number() == next_gen && exists|k2: Seq<u8>|
                final(self).current().unlocked_with(
                    old(self).current().device_seed(),
                    k2,
                    xor_seq(old(self).current().password_value(), mask.0@),
                ),
            forall|dk: Seq<u8>, k: Seq<u8>, pass: Seq<u8>|
                old(self).current().unlocked_with(dk, k, pass) && old(self).current().gen_number() + mask.1
                    == next_gen ==> (r is Ok && final(self).current().gen_number() == next_gen
                    && exists|k2: Seq<u8>| final(self).current().unlocked_with(dk, k2, xor_seq(pass, mask.0@))),
    {
        let rk = RandomKey::generate();
        let ghost k2 = rk.0@;
        let noise = crate::array::random_bytes(NOISE_LEN);
        let r = self.apply_mask_with(mask, next_gen, rk, noise, CryptoArray::random());
        proof {
            assert forall|dk: Seq<u8>, k: Seq<u8>, pass: Seq<u8>|
                old(self).current().unlocked_with(dk, k, pass) && old(self).current().gen_number() + mask.1
                    == next_gen implies (r is Ok && self.current().gen_number() == next_gen
                    && exists|k3: Seq<u8>| self.current().unlocked_with(dk, k3, xor_seq(pass, mask.0@))) by {
                assert(self.current().unlocked_with(dk, k2, xor_seq(pass, mask.0@)));
            }
            if r is Ok {
                assert(self.current().unlocked_with(
                    old(self).current().device_seed(),
                    k2,
                    xor_seq(old(self).current().password_value(), mask.0@),
                ));
            }
        }
        r
    }
}

} // verus!
