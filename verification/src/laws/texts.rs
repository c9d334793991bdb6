//! What texts say: the texts of commands and of errors, and how numbers and bytes are shown.

use crate::command::Command;
use crate::error::{EngineError, Error, MvccError, TxnError};
use crate::text::{
    byte_list, decimal, digit, escape, escape_byte, push_byte_list, push_decimal, push_escaped,
};
use vstd::prelude::*;
use vstd::string::*;

verus! {

/// The number that decimal digits stand for.
pub open spec fn digits_value(digits: Seq<char>) -> int
    decreases digits.len(),
{
    if digits.len() == 0 {
        0
    } else {
        10 * digits_value(digits.drop_last()) + (digits.last() as int - 48)
    }
}

/// A number that is shown can be read back. It is shown by digits alone, at least one of them, and
/// a zero leads only where it is the whole number.
pub proof fn law_decimal(n: nat)
    ensures
        digits_value(decimal(n)) == n,
        decimal(n).len() > 0,
        forall|i: int| 0 <= i < decimal(n).len() ==> '0' <= #[trigger] decimal(n)[i] <= '9',
        decimal(n)[0] == '0' ==> decimal(n).len() == 1,
    decreases n,
{
    reveal_with_fuel(digits_value, 2);
    if n < 10 {
        assert(decimal(n).drop_last() =~= Seq::<char>::empty());
        lemma_digit(n as int);
    } else {
        law_decimal(n / 10);
        lemma_digit((n % 10) as int);
        let digits = decimal(n);
        assert(digits.drop_last() =~= decimal(n / 10));
        assert(digits.last() == digit((n % 10) as int));
        assert(digits[0] == decimal(n / 10)[0]);
        if digits[0] == '0' {
            assert(decimal(n / 10).drop_last() =~= Seq::<char>::empty());
            assert(digits_value(decimal(n / 10)) == 0);
        }
    }
}

/// The digits are those from `0` to `9`.
proof fn lemma_digit(d: int)
    requires
        0 <= d < 10,
    ensures
        digit(d) as int == 48 + d,
        '0' <= digit(d) <= '9',
{
}

/// Different numbers are shown differently.
pub proof fn law_decimal_tells_apart(a: nat, b: nat)
    requires
        decimal(a) == decimal(b),
    ensures
        a == b,
{
    law_decimal(a);
    law_decimal(b);
}

/// A byte that is printable ASCII, but for the quote and the backslash, is shown as it is; line
/// breaks, tabs, the quote and the backslash are shown with a backslash before them; any other
/// byte is shown by a backslash and three octal digits.
pub proof fn law_escape_byte(b: u8)
    ensures
        32 <= b < 127 && b != 34 && b != 92 ==> escape_byte(b).len() == 1
            && escape_byte(b)[0] as int
            == b,
        b == 10 || b == 13 || b == 9 || b == 34 || b == 92 ==> escape_byte(b).len() == 2
            && escape_byte(b)[0] == '\\',
        b == 10 ==> escape_byte(b)[1] == 'n',
        b == 13 ==> escape_byte(b)[1] == 'r',
        b == 9 ==> escape_byte(b)[1] == 't',
        b == 34 || b == 92 ==> escape_byte(b)[1] as int == b,
        (b < 32 || b >= 127) && b != 10 && b != 13 && b != 9 ==> {
            &&& escape_byte(b).len() == 4
            &&& escape_byte(b)[0] == '\\'
            &&& forall|i: int| 1 <= i < 4 ==> '0' <= #[trigger] escape_byte(b)[i] <= '7'
            &&& (escape_byte(b)[1] as int - 48) * 64 + (escape_byte(b)[2] as int - 48) * 8 + (
            escape_byte(b)[3] as int - 48) == b
        },
{
    lemma_digit(b as int / 64);
    lemma_digit(b as int / 8 % 8);
    lemma_digit(b as int % 8);
}

/// Bytes are shown one after the other, each by itself.
pub proof fn law_escape_joins(a: Seq<u8>, b: Seq<u8>)
    ensures
        escape(a + b) == escape(a) + escape(b),
        a.len() == 1 ==> escape(a) == escape_byte(a[0]),
        a.len() == 0 ==> escape(a).len() == 0,
    decreases b.len(),
{
    if b.len() == 0 {
        assert(a + b =~= a);
        assert(escape(a) + escape(b) =~= escape(a));
    } else {
        law_escape_joins(a, b.drop_last());
        assert((a + b).drop_last() =~= a + b.drop_last());
        assert((a + b).last() == b.last());
        assert(escape(a + b) =~= escape(a) + escape(b));
    }
    if a.len() == 1 {
        reveal_with_fuel(escape, 2);
        assert(a.drop_last() =~= Seq::<u8>::empty());
        assert(escape(a) =~= escape_byte(a[0]));
    }
}

/// Different bytes are shown differently, whatever follows them.
proof fn lemma_escape_byte_apart(a: u8, b: u8, after_a: Seq<char>, after_b: Seq<char>)
    requires
        escape_byte(a) + after_a == escape_byte(b) + after_b,
    ensures
        a == b,
        after_a == after_b,
{
    law_escape_byte(a);
    law_escape_byte(b);
    let ea = escape_byte(a);
    let eb = escape_byte(b);
    let all = ea + after_a;
    assert(all[0] == ea[0] && all[0] == eb[0]);
    if ea.len() > 1 && eb.len() > 1 {
        assert(all[1] == ea[1] && all[1] == eb[1]);
        if ea.len() == 4 && eb.len() == 4 {
            assert(all[2] == ea[2] && all[2] == eb[2]);
            assert(all[3] == ea[3] && all[3] == eb[3]);
        } else if ea.len() == 4 {
            assert('0' <= ea[1] <= '7');
        } else if eb.len() == 4 {
            assert('0' <= eb[1] <= '7');
        }
    }
    assert(a == b);
    assert(after_a =~= all.skip(ea.len() as int));
    assert(after_b =~= all.skip(ea.len() as int));
}

/// Different byte strings are shown differently.
pub proof fn law_escape_tells_apart(a: Seq<u8>, b: Seq<u8>)
    requires
        escape(a) == escape(b),
    ensures
        a == b,
    decreases a.len(),
{
    if a.len() > 0 {
        law_escape_joins(seq![a[0]], a.drop_first());
        assert(seq![a[0]] + a.drop_first() =~= a);
        law_escape_byte(a[0]);
    }
    if b.len() > 0 {
        law_escape_joins(seq![b[0]], b.drop_first());
        assert(seq![b[0]] + b.drop_first() =~= b);
        law_escape_byte(b[0]);
    }
    if a.len() > 0 && b.len() > 0 {
        lemma_escape_byte_apart(a[0], b[0], escape(a.drop_first()), escape(b.drop_first()));
        law_escape_tells_apart(a.drop_first(), b.drop_first());
        assert(a =~= b);
    } else {
        law_escape_joins(a, b);
        law_escape_joins(b, a);
        assert(a =~= b);
    }
}

/// A list of bytes shows the number of each byte, with a comma and a space between two.
pub proof fn law_byte_list(bytes: Seq<u8>, b: u8)
    ensures
        byte_list(Seq::<u8>::empty()).len() == 0,
        byte_list(seq![b]) == decimal(b as nat),
        bytes.len() > 0 ==> byte_list(bytes.push(b)) == byte_list(bytes) + seq![',', ' ']
            + decimal(b as nat),
{
    reveal_strlit(", ");
    assert(", "@ =~= seq![',', ' ']);
    assert(bytes.push(b).drop_last() =~= bytes);
    assert(bytes.push(b).last() == b);
}

/// Numbers and bytes are added at the end of a text, and nothing else is.
pub proof fn law_push(
    number_text: &mut String,
    bytes_text: &mut String,
    list_text: &mut String,
    n: u64,
    bytes: &[u8],
)
    requires
        call_ensures(push_decimal, (number_text, n), ()),
        call_ensures(push_escaped, (bytes_text, bytes), ()),
        call_ensures(push_byte_list, (list_text, bytes), ()),
    ensures
        old(number_text)@.is_prefix_of(final(number_text)@),
        digits_value(final(number_text)@.skip(old(number_text)@.len() as int)) == n,
        final(bytes_text)@ == old(bytes_text)@ + escape(bytes@),
        final(list_text)@ == old(list_text)@ + byte_list(bytes@),
{
    law_decimal(n as nat);
    let before = old(number_text)@;
    let after = final(number_text)@;
    assert(after.skip(before.len() as int) =~= decimal(n as nat));
    assert(before =~= after.subrange(0, before.len() as int));
}

/// The text of a command names its kind and shows what it is about: its key or how many keys there
/// are, and its timestamps in the order in which they matter.
pub proof fn law_command_text<C, B>(cmd: &Command<C, B>, line: String)
    requires
        call_ensures(Command::<C, B>::to_string, (cmd,), line),
    ensures
        *cmd matches Command::Get { key, start_ts, .. } ==> line@ == "kv::command::get "@ + escape(
            key@,
        ) + " @ "@ + decimal(start_ts as nat),
        *cmd matches Command::BatchGet { keys, start_ts, .. } ==> line@
            == "kv::command_batch_get "@ + decimal(keys@.len()) + " @ "@ + decimal(start_ts as nat),
        *cmd matches Command::Scan { start_key, limit, start_ts, .. } ==> line@
            == "kv::command::scan "@ + escape(start_key@) + "("@ + decimal(limit as nat) + ") @ "@
            + decimal(start_ts as nat),
        *cmd matches Command::Prewrite { mutations, start_ts, .. } ==> line@
            == "kv::command::prewrite mutations("@ + decimal(mutations@.len()) + ") @ "@ + decimal(
            start_ts as nat,
        ),
        *cmd matches Command::Commit { keys, lock_ts, commit_ts, .. } ==> line@
            == "kv::command::commit "@ + decimal(keys@.len()) + " "@ + decimal(lock_ts as nat)
            + " -> "@ + decimal(commit_ts as nat),
        *cmd matches Command::CommitThenGet { key, lock_ts, commit_ts, get_ts, .. } ==> line@
            == "kv::command::commit_then_get "@ + "Key(["@ + byte_list(key@) + "]) "@ + decimal(
            lock_ts as nat,
        ) + " -> "@ + decimal(commit_ts as nat) + " @ "@ + decimal(get_ts as nat),
        *cmd matches Command::Cleanup { key, start_ts, .. } ==> line@ == "kv::command::cleanup "@
            + escape(key@) + " @ "@ + decimal(start_ts as nat),
        *cmd matches Command::Rollback { keys, start_ts, .. } ==> line@
            == "kv::command::rollback keys("@ + decimal(keys@.len()) + ") @ "@ + decimal(
            start_ts as nat,
        ),
        *cmd matches Command::RollbackThenGet { key, lock_ts, .. } ==> line@
            == "kv::rollback_then_get "@ + escape(key@) + " @ "@ + decimal(lock_ts as nat),
{
}

/// An error that is passed on is passed on as it is.
pub proof fn law_error_from(
    engine: EngineError,
    mvcc: MvccError,
    txn: TxnError,
    engine_in_txn: TxnError,
    mvcc_in_txn: TxnError,
    engine_in_storage: Error,
    txn_in_storage: Error,
)
    requires
        call_ensures(<TxnError as From<EngineError>>::from, (engine,), engine_in_txn),
        call_ensures(<TxnError as From<MvccError>>::from, (mvcc,), mvcc_in_txn),
        call_ensures(<Error as From<EngineError>>::from, (engine,), engine_in_storage),
        call_ensures(<Error as From<TxnError>>::from, (txn,), txn_in_storage),
    ensures
        engine_in_txn == TxnError::Engine(engine),
        mvcc_in_txn == TxnError::Mvcc(mvcc),
        engine_in_storage == Error::Engine(engine),
        txn_in_storage == Error::Txn(txn),
{
}

/// An error is described by its reason, or as that which caused it is; a closed storage says so.
pub proof fn law_descriptions(
    mvcc: &MvccError,
    txn: &TxnError,
    err: &Error,
    of_mvcc: &str,
    of_txn: &str,
    of_err: &str,
)
    requires
        call_ensures(MvccError::description, (mvcc,), of_mvcc),
        call_ensures(TxnError::description, (txn,), of_txn),
        call_ensures(Error::description, (err,), of_err),
    ensures
        *mvcc matches MvccError::KeyIsLocked { reason, .. } ==> of_mvcc@ == reason@,
        *mvcc matches MvccError::Other(reason) ==> of_mvcc@ == reason@,
        *txn matches TxnError::Engine(cause) ==> of_txn@ == cause.reason@,
        *txn == TxnError::Mvcc(*mvcc) ==> of_txn@ == of_mvcc@,
        *txn matches TxnError::Other(reason) ==> of_txn@ == reason@,
        *err matches Error::Engine(cause) ==> of_err@ == cause.reason@,
        *err == Error::Txn(*txn) ==> of_err@ == of_txn@,
        *err is Closed ==> of_err@ == "storage is closed."@,
        *err matches Error::Other(reason) ==> of_err@ == reason@,
        *err matches Error::Io(reason) ==> of_err@ == reason@,
{
}

} // verus!
