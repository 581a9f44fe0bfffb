//! Properties that span several operations, proved from their contracts.

use vstd::prelude::*;
use crate::account::Account;
use crate::account_number::{is_account_number_for, lemma_check_digit_completes, luhn_valid};
use crate::account_service::balance_of;
use crate::money::{amount_of_text, lemma_diff_value, lemma_sum_value};
use crate::auth::{admin_scope, read_scope, required_scope, scope_permits, transaction_scope};
use crate::errors::TransactionError;
use crate::models::{AccountType, TransactionType, type_code};
use crate::text::{digit_char_spec, digit_value, is_digit};
use crate::transaction::Transaction;
use crate::transaction_service::{
    TransactionRequest, has_reference, is_replay, answers_with, references_unique, submitted, transferred_ledger,
    transfer_ok,
};

verus! {

/// A completed transfer between two different accounts moves the amount
/// from the source to the destination: the sum of their balances is kept
/// and no other account changes.
pub proof fn lemma_transfer_conserves_balance(l: Map<Seq<char>, Account>, rec: Transaction, now: u64)
    requires
        forall|k: Seq<char>| #[trigger] l.contains_key(k) ==> l[k].wf(),
        rec.amount.wf(),
        transfer_ok(l, rec, now),
        rec.from_account@ != rec.to_account@,
    ensures
        ({
            let t = transferred_ledger(l, rec, now);
            let f = rec.from_account@;
            let d = rec.to_account@;
            &&& balance_of(t, f) == balance_of(l, f) - rec.amount.value()
            &&& balance_of(t, d) == balance_of(l, d) + rec.amount.value()
            &&& balance_of(t, f) + balance_of(t, d) == balance_of(l, f) + balance_of(l, d)
            &&& t.dom() == l.dom()
            &&& forall|k: Seq<char>| k != f && k != d ==> #[trigger] t.contains_key(k) == l.contains_key(k)
                && (l.contains_key(k) ==> t[k] == l[k])
        }),
{
    let t = transferred_ledger(l, rec, now);
    let f = rec.from_account@;
    let d = rec.to_account@;
    assert(l[f].wf());
    assert(l[d].wf());
    lemma_diff_value(l[f].current_balance, rec.amount);
    lemma_sum_value(l[d].current_balance, rec.amount);
    assert(t.dom() =~= l.dom());
}

/// Whatever an internal transfer answers,
/// no money is created or lost: when it succeeds the two balances keep
/// their sum and every other balance is unchanged; when it fails every
/// balance, the source's included, is what it was before.
pub proof fn lemma_transfer_outcome_balances(
    s: Seq<Transaction>,
    s2: Seq<Transaction>,
    l: Map<Seq<char>, Account>,
    l2: Map<Seq<char>, Account>,
    request: TransactionRequest,
    now: u64,
    r: Result<Transaction, TransactionError>,
)
    requires
        forall|k: Seq<char>| #[trigger] l.contains_key(k) ==> l[k].wf(),
        submitted(s, s2, l, l2, request, TransactionType::Internal, now, r),
    ensures
        balance_of(l2, request.from_account@) + balance_of(l2, request.to_account@)
            == balance_of(l, request.from_account@) + balance_of(l, request.to_account@),
        forall|k: Seq<char>| k != request.from_account@ && k != request.to_account@
            ==> #[trigger] balance_of(l2, k) == balance_of(l, k),
        r is Err ==> forall|k: Seq<char>| #[trigger] balance_of(l2, k) == balance_of(l, k),
        r is Ok && !is_replay(s, request) && request.from_account@ != request.to_account@
            ==> match amount_of_text(request.amount@) {
                Some(a) => balance_of(l2, request.from_account@) == balance_of(l, request.from_account@) - a.value()
                    && balance_of(l2, request.to_account@) == balance_of(l, request.to_account@) + a.value(),
                None => false,
            },
{
    if r is Ok && !is_replay(s, request) {
        let end = s2.last();
        let start = crate::saga::with_record_status(end, crate::models::TransactionStatus::Pending);
        let f = start.from_account@;
        if f != start.to_account@ {
            lemma_transfer_conserves_balance(l, start, now);
        } else {
            assert(l[f].wf());
            lemma_diff_value(l[f].current_balance, start.amount);
        }
    }
}

/// Submitting the same transfer request, with a reference, a second time
/// changes nothing: neither the records nor any balance. The second answer
/// is the record filed under the reference, identical to the first answer
/// where that was a success.
pub proof fn lemma_replay_is_idempotent(
    s1: Seq<Transaction>,
    s2: Seq<Transaction>,
    s3: Seq<Transaction>,
    l1: Map<Seq<char>, Account>,
    l2: Map<Seq<char>, Account>,
    l3: Map<Seq<char>, Account>,
    request: TransactionRequest,
    now1: u64,
    now2: u64,
    r1: Result<Transaction, TransactionError>,
    r2: Result<Transaction, TransactionError>,
)
    requires
        request.reference is Some,
        references_unique(s2),
        submitted(s1, s2, l1, l2, request, TransactionType::Internal, now1, r1),
        submitted(s2, s3, l2, l3, request, TransactionType::Internal, now2, r2),
    ensures
        l3 == l2,
        s3 == s2,
        r1 is Ok ==> r2 == r1,
        has_reference(s2, request.reference->0@) ==> r2 is Ok,
{
    let x = request.reference->0@;
    if s2.len() == s1.len() + 1 {
        let last = s2.len() - 1;
        assert(s2[last].transaction_reference@ == x);
        assert(has_reference(s2, x));
        assert(answers_with(r2, s2[last]));
    }
    if has_reference(s2, x) {
        let j = choose|j: int| 0 <= j < s2.len() && #[trigger] s2[j].transaction_reference@ == x;
        assert(answers_with(r2, s2[j]));
    }
}

proof fn lemma_digit_round_trip(c: char)
    requires
        is_digit(c),
    ensures
        digit_char_spec(digit_value(c)) == c,
{
    let v = c as u32;
    assert(48 <= v <= 57);
    if v == 48 { assert(c == '0'); }
    else if v == 49 { assert(c == '1'); }
    else if v == 50 { assert(c == '2'); }
    else if v == 51 { assert(c == '3'); }
    else if v == 52 { assert(c == '4'); }
    else if v == 53 { assert(c == '5'); }
    else if v == 54 { assert(c == '6'); }
    else if v == 55 { assert(c == '7'); }
    else if v == 56 { assert(c == '8'); }
    else { assert(c == '9'); }
}

/// Every well-formed account number passes the Luhn check over all nine
/// digits, and carries the code of its account type in its third and fourth
/// digits.
pub proof fn lemma_account_number_is_luhn_valid(n: Seq<char>, t: AccountType)
    requires
        is_account_number_for(n, t),
    ensures
        luhn_valid(n),
        n[2] == type_code(t)[0] && n[3] == type_code(t)[1],
{
    let payload = n.subrange(0, 8);
    assert(crate::text::all_digits(payload));
    lemma_check_digit_completes(payload);
    lemma_digit_round_trip(n[8]);
    assert(payload.push(n[8]) =~= n);
    assert(n.subrange(2, 4)[0] == n[2]);
    assert(n.subrange(2, 4)[1] == n[3]);
}

/// A token without the transaction scope may neither transfer nor deposit,
/// and one without the admin scope (one with only the read scope, say) may
/// not run the query by transaction time.
pub proof fn lemma_scope_enforcement(scopes: Seq<Seq<char>>)
    ensures
        !scopes.contains(transaction_scope()) ==> !scope_permits(scopes, "InternalTransfer"@)
            && !scope_permits(scopes, "ProcessDeposit"@),
        !scopes.contains(admin_scope()) ==> !scope_permits(scopes, "GetTransactionByTransactionTime"@),
        scopes == seq![read_scope()] ==> !scope_permits(scopes, "GetTransactionByTransactionTime"@),
{
    reveal_strlit("InternalTransfer");
    reveal_strlit("ProcessDeposit");
    reveal_strlit("CreditAccount");
    reveal_strlit("DebitAccount");
    reveal_strlit("GetTransactionByReference");
    reveal_strlit("GetTransactionsByAccountId");
    reveal_strlit("GetTransactionsByFromAccount");
    reveal_strlit("GetTransactionsByToAccount");
    reveal_strlit("GetAccountDetails");
    reveal_strlit("GetAccountDetailsByUserId");
    reveal_strlit("GetTransactionByTransactionTime");
    reveal_strlit("account:read");
    reveal_strlit("account:admin");
    assert(required_scope("InternalTransfer"@) == Some(transaction_scope()));
    assert(required_scope("ProcessDeposit"@) == Some(transaction_scope()));
    let q = "GetTransactionByTransactionTime"@;
    assert(q.len() == 31);
    assert(q != "InternalTransfer"@ && q != "ProcessDeposit"@ && q != "CreditAccount"@ && q != "DebitAccount"@);
    assert(q != "GetTransactionByReference"@ && q != "GetTransactionsByAccountId"@);
    assert(q != "GetTransactionsByFromAccount"@ && q != "GetTransactionsByToAccount"@);
    assert(q != "GetAccountDetails"@ && q != "GetAccountDetailsByUserId"@);
    assert(required_scope(q) == Some(admin_scope()));
    if scopes == seq![read_scope()] {
        assert(read_scope().len() != admin_scope().len());
        if scopes.contains(admin_scope()) {
            let w = choose|w: int| 0 <= w < scopes.len() && scopes[w] == admin_scope();
            assert(w == 0);
        }
    }
}

} // verus!
