//! The commands that the scheduler runs.

use crate::key::{Key, Mutation};
use crate::text::{byte_list, decimal, escape, push_byte_list, push_decimal, push_escaped};
use vstd::prelude::*;
use vstd::string::*;

verus! {

/// A command. `C` is the request context that the engine is given, `B` the callback that the
/// answer is given to; the scheduler looks into neither.
#[derive(Debug)]
pub enum Command<C, B> {
    /// Read one key.
    Get { ctx: C, key: Key, start_ts: u64, callback: Option<B> },
    /// Read several keys.
    BatchGet { ctx: C, keys: Vec<Key>, start_ts: u64, callback: Option<B> },
    /// Read up to `limit` keys, from `start_key` on.
    Scan { ctx: C, start_key: Key, limit: usize, start_ts: u64, callback: Option<B> },
    /// Lock and stage the mutations of a transaction.
    Prewrite {
        ctx: C,
        mutations: Vec<Mutation>,
        primary: Vec<u8>,
        start_ts: u64,
        callback: Option<B>,
    },
    /// Commit the keys of a transaction.
    Commit { ctx: C, keys: Vec<Key>, lock_ts: u64, commit_ts: u64, callback: Option<B> },
    /// Commit a key of a transaction, and read it.
    CommitThenGet {
        ctx: C,
        key: Key,
        lock_ts: u64,
        commit_ts: u64,
        get_ts: u64,
        callback: Option<B>,
    },
    /// Roll a key back.
    Cleanup { ctx: C, key: Key, start_ts: u64, callback: Option<B> },
    /// Roll the keys of a transaction back.
    Rollback { ctx: C, keys: Vec<Key>, start_ts: u64, callback: Option<B> },
    /// Roll a key back, and read it.
    RollbackThenGet { ctx: C, key: Key, lock_ts: u64, callback: Option<B> },
}

/// The encoded bytes of each key.
pub open spec fn keys_view(keys: Seq<Key>) -> Seq<Seq<u8>> {
    keys.map_values(|key: Key| key@)
}

impl<C, B> Command<C, B> {
    /// Whether the command only reads.
    pub open spec fn spec_readonly(&self) -> bool {
        self is Get || self is BatchGet || self is Scan
    }

    /// Whether the command only reads.
    pub fn readonly(&self) -> (yes: bool)
        ensures
            yes == self.spec_readonly(),
    {
        match self {
            Command::Get { .. } | Command::BatchGet { .. } | Command::Scan { .. } => true,
            _ => false,
        }
    }

    /// The request context.
    pub open spec fn spec_context(&self) -> C {
        match self {
            Command::Get { ctx, .. } => *ctx,
            Command::BatchGet { ctx, .. } => *ctx,
            Command::Scan { ctx, .. } => *ctx,
            Command::Prewrite { ctx, .. } => *ctx,
            Command::Commit { ctx, .. } => *ctx,
            Command::CommitThenGet { ctx, .. } => *ctx,
            Command::Cleanup { ctx, .. } => *ctx,
            Command::Rollback { ctx, .. } => *ctx,
            Command::RollbackThenGet { ctx, .. } => *ctx,
        }
    }

    /// The request context.
    pub fn context(&self) -> (ctx: &C)
        ensures
            *ctx == self.spec_context(),
    {
        match self {
            Command::Get { ctx, .. } => ctx,
            Command::BatchGet { ctx, .. } => ctx,
            Command::Scan { ctx, .. } => ctx,
            Command::Prewrite { ctx, .. } => ctx,
            Command::Commit { ctx, .. } => ctx,
            Command::CommitThenGet { ctx, .. } => ctx,
            Command::Cleanup { ctx, .. } => ctx,
            Command::Rollback { ctx, .. } => ctx,
            Command::RollbackThenGet { ctx, .. } => ctx,
        }
    }

    /// The callback, while it has not been taken.
    pub open spec fn spec_callback(&self) -> Option<B> {
        match self {
            Command::Get { callback, .. } => *callback,
            Command::BatchGet { callback, .. } => *callback,
            Command::Scan { callback, .. } => *callback,
            Command::Prewrite { callback, .. } => *callback,
            Command::Commit { callback, .. } => *callback,
            Command::CommitThenGet { callback, .. } => *callback,
            Command::Cleanup { callback, .. } => *callback,
            Command::Rollback { callback, .. } => *callback,
            Command::RollbackThenGet { callback, .. } => *callback,
        }
    }

    /// Whether the callback has not been taken.
    pub fn has_callback(&self) -> (yes: bool)
        ensures
            yes == (self.spec_callback() is Some),
    {
        match self {
            Command::Get { callback, .. } => callback.is_some(),
            Command::BatchGet { callback, .. } => callback.is_some(),
            Command::Scan { callback, .. } => callback.is_some(),
            Command::Prewrite { callback, .. } => callback.is_some(),
            Command::Commit { callback, .. } => callback.is_some(),
            Command::CommitThenGet { callback, .. } => callback.is_some(),
            Command::Cleanup { callback, .. } => callback.is_some(),
            Command::Rollback { callback, .. } => callback.is_some(),
            Command::RollbackThenGet { callback, .. } => callback.is_some(),
        }
    }

    /// The command once its callback has been taken.
    pub open spec fn without_callback(self) -> Command<C, B> {
        match self {
            Command::Get { ctx, key, start_ts, callback } => {
                Command::Get { ctx, key, start_ts, callback: None }
            },
            Command::BatchGet { ctx, keys, start_ts, callback } => {
                Command::BatchGet { ctx, keys, start_ts, callback: None }
            },
            Command::Scan { ctx, start_key, limit, start_ts, callback } => {
                Command::Scan { ctx, start_key, limit, start_ts, callback: None }
            },
            Command::Prewrite { ctx, mutations, primary, start_ts, callback } => {
                Command::Prewrite { ctx, mutations, primary, start_ts, callback: None }
            },
            Command::Commit { ctx, keys, lock_ts, commit_ts, callback } => {
                Command::Commit { ctx, keys, lock_ts, commit_ts, callback: None }
            },
            Command::CommitThenGet { ctx, key, lock_ts, commit_ts, get_ts, callback } => {
                Command::CommitThenGet { ctx, key, lock_ts, commit_ts, get_ts, callback: None }
            },
            Command::Cleanup { ctx, key, start_ts, callback } => {
                Command::Cleanup { ctx, key, start_ts, callback: None }
            },
            Command::Rollback { ctx, keys, start_ts, callback } => {
                Command::Rollback { ctx, keys, start_ts, callback: None }
            },
            Command::RollbackThenGet { ctx, key, lock_ts, callback } => {
                Command::RollbackThenGet { ctx, key, lock_ts, callback: None }
            },
        }
    }

    /// Takes the callback out of the command.
    pub fn take_callback(&mut self) -> (taken: Option<B>)
        ensures
            taken == old(self).spec_callback(),
            *final(self) == old(self).without_callback(),
    {
        match self {
            Command::Get { callback, .. } => callback.take(),
            Command::BatchGet { callback, .. } => callback.take(),
            Command::Scan { callback, .. } => callback.take(),
            Command::Prewrite { callback, .. } => callback.take(),
            Command::Commit { callback, .. } => callback.take(),
            Command::CommitThenGet { callback, .. } => callback.take(),
            Command::Cleanup { callback, .. } => callback.take(),
            Command::Rollback { callback, .. } => callback.take(),
            Command::RollbackThenGet { callback, .. } => callback.take(),
        }
    }

    /// The keys that the command writes, and so needs latches for.
    pub open spec fn written_keys(&self) -> Seq<Seq<u8>> {
        match self {
            Command::Prewrite { mutations, .. } => {
                mutations@.map_values(|mutation: Mutation| mutation.spec_key()@)
            },
            Command::Commit { keys, .. } => keys_view(keys@),
            Command::Rollback { keys, .. } => keys_view(keys@),
            Command::CommitThenGet { key, .. } => seq![key@],
            Command::Cleanup { key, .. } => seq![key@],
            Command::RollbackThenGet { key, .. } => seq![key@],
            _ => Seq::empty(),
        }
    }

    /// The keys that the command writes, and so needs latches for.
    pub fn latch_keys(&self) -> (keys: Vec<&Key>)
        ensures
            keys@.map_values(|key: &Key| key@) == self.written_keys(),
    {
        let mut keys: Vec<&Key> = Vec::new();
        match self {
            Command::Prewrite { mutations, .. } => {
                let mut i: usize = 0;
                while i < mutations.len()
                    invariant
                        i <= mutations@.len(),
                        keys@.len() == i,
                        forall|j: int|
                            0 <= j < i ==> #[trigger] keys@[j]@ == mutations@[j].spec_key()@,
                    decreases mutations@.len() - i,
                {
                    keys.push(mutations[i].key());
                    i += 1;
                }
            },
            Command::Commit { keys: all, .. } | Command::Rollback { keys: all, .. } => {
                let mut i: usize = 0;
                while i < all.len()
                    invariant
                        i <= all@.len(),
                        keys@.len() == i,
                        forall|j: int| 0 <= j < i ==> #[trigger] keys@[j]@ == all@[j]@,
                    decreases all@.len() - i,
                {
                    keys.push(&all[i]);
                    i += 1;
                }
            },
            Command::CommitThenGet { key, .. }
            | Command::Cleanup { key, .. }
            | Command::RollbackThenGet { key, .. } => {
                keys.push(key);
            },
            _ => {},
        }
        assert(keys@.map_values(|key: &Key| key@) =~= self.written_keys());
        keys
    }

    /// The command in one line of text.
    pub open spec fn text(&self) -> Seq<char> {
        match self {
            Command::Get { key, start_ts, .. } => {
                "kv::command::get "@ + escape(key@) + " @ "@ + decimal(*start_ts as nat)
            },
            Command::BatchGet { keys, start_ts, .. } => {
                "kv::command_batch_get "@ + decimal(keys@.len()) + " @ "@ + decimal(
                    *start_ts as nat,
                )
            },
            Command::Scan { start_key, limit, start_ts, .. } => {
                "kv::command::scan "@ + escape(start_key@) + "("@ + decimal(*limit as nat) + ") @ "@
                    + decimal(*start_ts as nat)
            },
            Command::Prewrite { mutations, start_ts, .. } => {
                "kv::command::prewrite mutations("@ + decimal(mutations@.len()) + ") @ "@ + decimal(
                    *start_ts as nat,
                )
            },
            Command::Commit { keys, lock_ts, commit_ts, .. } => {
                "kv::command::commit "@ + decimal(keys@.len()) + " "@ + decimal(*lock_ts as nat)
                    + " -> "@ + decimal(*commit_ts as nat)
            },
            Command::CommitThenGet { key, lock_ts, commit_ts, get_ts, .. } => {
                "kv::command::commit_then_get "@ + "Key(["@ + byte_list(key@) + "]) "@ + decimal(
                    *lock_ts as nat,
                ) + " -> "@ + decimal(*commit_ts as nat) + " @ "@ + decimal(*get_ts as nat)
            },
            Command::Cleanup { key, start_ts, .. } => {
                "kv::command::cleanup "@ + escape(key@) + " @ "@ + decimal(*start_ts as nat)
            },
            Command::Rollback { keys, start_ts, .. } => {
                "kv::command::rollback keys("@ + decimal(keys@.len()) + ") @ "@ + decimal(
                    *start_ts as nat,
                )
            },
            Command::RollbackThenGet { key, lock_ts, .. } => {
                "kv::rollback_then_get "@ + escape(key@) + " @ "@ + decimal(*lock_ts as nat)
            },
        }
    }

    /// The command in one line of text.
    pub fn to_string(&self) -> (line: String)
        ensures
            line@ == self.text(),
    {
        let mut line: String = String::new();
        match self {
            Command::Get { key, start_ts, .. } => {
                line.append("kv::command::get ");
                push_escaped(&mut line, key.encoded().as_slice());
                line.append(" @ ");
                push_decimal(&mut line, *start_ts);
            },
            Command::BatchGet { keys, start_ts, .. } => {
                line.append("kv::command_batch_get ");
                push_decimal(&mut line, keys.len() as u64);
                line.append(" @ ");
                push_decimal(&mut line, *start_ts);
            },
            Command::Scan { start_key, limit, start_ts, .. } => {
                line.append("kv::command::scan ");
                push_escaped(&mut line, start_key.encoded().as_slice());
                line.append("(");
                push_decimal(&mut line, *limit as u64);
                line.append(") @ ");
                push_decimal(&mut line, *start_ts);
            },
            Command::Prewrite { mutations, start_ts, .. } => {
                line.append("kv::command::prewrite mutations(");
                push_decimal(&mut line, mutations.len() as u64);
                line.append(") @ ");
                push_decimal(&mut line, *start_ts);
            },
            Command::Commit { keys, lock_ts, commit_ts, .. } => {
                line.append("kv::command::commit ");
                push_decimal(&mut line, keys.len() as u64);
                line.append(" ");
                push_decimal(&mut line, *lock_ts);
                line.append(" -> ");
                push_decimal(&mut line, *commit_ts);
            },
            Command::CommitThenGet { key, lock_ts, commit_ts, get_ts, .. } => {
                line.append("kv::command::commit_then_get ");
                line.append("Key([");
                push_byte_list(&mut line, key.encoded().as_slice());
                line.append("]) ");
                push_decimal(&mut line, *lock_ts);
                line.append(" -> ");
                push_decimal(&mut line, *commit_ts);
                line.append(" @ ");
                push_decimal(&mut line, *get_ts);
            },
            Command::Cleanup { key, start_ts, .. } => {
                line.append("kv::command::cleanup ");
                push_escaped(&mut line, key.encoded().as_slice());
                line.append(" @ ");
                push_decimal(&mut line, *start_ts);
            },
            Command::Rollback { keys, start_ts, .. } => {
                line.append("kv::command::rollback keys(");
                push_decimal(&mut line, keys.len() as u64);
                line.append(") @ ");
                push_decimal(&mut line, *start_ts);
            },
            Command::RollbackThenGet { key, lock_ts, .. } => {
                line.append("kv::rollback_then_get ");
                push_escaped(&mut line, key.encoded().as_slice());
                line.append(" @ ");
                push_decimal(&mut line, *lock_ts);
            },
        }
        assert(line@ =~= self.text());
        line
    }
}

} // verus!
