//! Keys, values and the mutations that a transaction makes.

use vstd::prelude::*;

verus! {

/// A stored value.
pub type Value = Vec<u8>;

/// A key, in its raw form, with its value.
pub type KvPair = (Vec<u8>, Value);

/// A key in the encoded form that the engine stores.
#[derive(Debug, PartialEq, Eq, Hash)]
pub struct Key(Vec<u8>);

impl Key {
    /// The encoded bytes.
    pub closed spec fn view(&self) -> Seq<u8> {
        self.0@
    }

    /// A key made of encoded bytes.
    pub fn from_encoded(encoded: Vec<u8>) -> (key: Key)
        ensures
            key@ == encoded@,
    {
        Key(encoded)
    }

    /// The encoded bytes.
    pub fn encoded(&self) -> (encoded: &Vec<u8>)
        ensures
            encoded@ == self@,
    {
        &self.0
    }
}

impl Clone for Key {
    fn clone(&self) -> (copy: Key)
        ensures
            copy@ == self@,
    {
        let bytes: Vec<u8> = self.0.clone();
        assert(bytes@ =~= self.0@);
        Key(bytes)
    }
}

/// One change that a transaction makes.
#[derive(Debug)]
pub enum Mutation {
    /// Store a value under a key.
    Put((Key, Value)),
    /// Remove a key.
    Delete(Key),
    /// Lock a key and leave it as it is.
    Lock(Key),
}

impl Mutation {
    /// The key that the mutation changes.
    pub open spec fn spec_key(&self) -> Key {
        match self {
            Mutation::Put((key, _)) => *key,
            Mutation::Delete(key) => *key,
            Mutation::Lock(key) => *key,
        }
    }

    /// The key that the mutation changes.
    pub fn key(&self) -> (key: &Key)
        ensures
            *key == self.spec_key(),
    {
        match self {
            Mutation::Put((key, _)) => key,
            Mutation::Delete(key) => key,
            Mutation::Lock(key) => key,
        }
    }
}

impl Clone for Mutation {
    fn clone(&self) -> (copy: Mutation)
        ensures
            match (*self, copy) {
                (Mutation::Put((key, value)), Mutation::Put((copied_key, copied_value))) => {
                    copied_key@ == key@ && copied_value@ == value@
                },
                (Mutation::Delete(key), Mutation::Delete(copied_key)) => copied_key@ == key@,
                (Mutation::Lock(key), Mutation::Lock(copied_key)) => copied_key@ == key@,
                _ => false,
            },
    {
        match self {
            Mutation::Put((key, value)) => {
                let copied_value: Value = value.clone();
                assert(copied_value@ =~= value@);
                Mutation::Put((key.clone(), copied_value))
            },
            Mutation::Delete(key) => Mutation::Delete(key.clone()),
            Mutation::Lock(key) => Mutation::Lock(key.clone()),
        }
    }
}

} // verus!
