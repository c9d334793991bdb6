# txnsched

The command scheduler of a transactional key-value store, verified with Verus.

Commands that write take the latches of their keys before they run, in ascending order of slots, so
that two commands that write a common key never run at the same time and no set of commands can
deadlock. The scheduler is a state machine: it takes in one message at a time and says what is to be
done next.

- `src/latch.rs`: the latches, and which slots a list of keys maps to
- `src/hasher.rs`: the hash function behind the slots
- `src/key.rs`, `src/command.rs`, `src/message.rs`, `src/error.rs`: keys, commands, messages, errors
- `src/process.rs`: what a command asks of its snapshot, and how it is answered
- `src/scheduler.rs`: the scheduler
- `src/state.rs`: its state as the contracts see it, and the invariant that every step keeps
- `src/laws.rs`: mutual exclusion, absence of deadlock, order of service, and the other laws
- `src/storage.rs`: starting, using and stopping a storage
- `src/text.rs`: text for logs
- `app/`: the event loop, its thread and channel, and the calls into an engine
