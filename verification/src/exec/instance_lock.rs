//! Names and messages of the guard against a second instance.
//!
//! Nonces run per (account, api key): two instances on one pair would spoil each other's
//! sequence and place each order twice.
use vstd::prelude::*;
use vstd::string::StringExecFns;
use crate::text::{
    all_digits, decimal, digits_stand_for_the_number, occurs, occurs_at,
    printed_integers_are_read_back, signed_decimal, signed_text,
};

verus! {

/// The lock file of a pair.
pub open spec fn lock_name(account_index: i64, api_key_index: i32) -> Seq<char> {
    "lighter-mm-acct"@ + signed_decimal(account_index as int) + "-key"@ + signed_decimal(
        api_key_index as int,
    ) + ".lock"@
}

/// The lock file of a pair.
pub fn lock_file_name(account_index: i64, api_key_index: i32) -> (r: String)
    ensures
        r@ == lock_name(account_index, api_key_index),
{
    let account: String = signed_text(account_index);
    let key: String = signed_text(api_key_index as i64);
    "lighter-mm-acct".to_owned().concat(account.as_str()).concat("-key").concat(
        key.as_str(),
    ).concat(".lock")
}

/// What is said to whoever starts a second instance.
pub open spec fn running_message(
    account_index: i64,
    api_key_index: i32,
    detail: Seq<char>,
) -> Seq<char> {
    "another lighter-mm instance is ALREADY RUNNING for account_index="@ + signed_decimal(
        account_index as int,
    ) + " api_key_index="@ + signed_decimal(api_key_index as int) + " ("@ + detail
        + "). Two bots on the same (account, api-key) share ONE exchange nonce sequence and WILL corrupt each other ('invalid nonce' cascade) and double-place orders. Refusing to start."@
}

/// What is said to whoever starts a second instance.
pub fn already_running_msg(account_index: i64, api_key_index: i32, detail: &str) -> (r: String)
    ensures
        r@ == running_message(account_index, api_key_index, detail@),
{
    let account: String = signed_text(account_index);
    let key: String = signed_text(api_key_index as i64);
    "another lighter-mm instance is ALREADY RUNNING for account_index=".to_owned().concat(
        account.as_str(),
    ).concat(" api_key_index=").concat(key.as_str()).concat(" (").concat(detail).concat(
        "). Two bots on the same (account, api-key) share ONE exchange nonce sequence and WILL corrupt each other ('invalid nonce' cascade) and double-place orders. Refusing to start.",
    )
}

proof fn lemma_no_letter(n: int, i: int)
    requires
        0 <= i < signed_decimal(n).len(),
    ensures
        signed_decimal(n)[i] != 'k',
{
    let m = (if n < 0 {
        -n
    } else {
        n
    }) as nat;
    digits_stand_for_the_number(m);
    assert(all_digits(decimal(m)));
    if n < 0 {
        if i > 0 {
            assert(signed_decimal(n)[i] == decimal(m)[i - 1]);
        }
    }
}

/// Two pairs share a lock file exactly where they are the same pair.
pub proof fn each_pair_has_its_own_lock(a: i64, k: i32, b: i64, l: i32)
    ensures
        lock_name(a, k) == lock_name(b, l) <==> a == b && k == l,
{
    if lock_name(a, k) == lock_name(b, l) {
        reveal_strlit("-key");
        let front = "lighter-mm-acct"@;
        let end = ".lock"@;
        let x = signed_decimal(a as int);
        let y = signed_decimal(b as int);
        let u = signed_decimal(k as int);
        let v = signed_decimal(l as int);
        let p = lock_name(a, k);
        let q = lock_name(b, l);
        let f = front.len() as int;
        let m = x.len() as int;
        let n = y.len() as int;
        assert("-key"@.len() == 4 && "-key"@[0] == '-' && "-key"@[1] == 'k');
        if m < n {
            assert(p[f + m + 1] == 'k');
            if m + 1 < n {
                assert(q[f + m + 1] == y[m + 1]);
                lemma_no_letter(b as int, m + 1);
            } else {
                assert(q[f + m + 1] == '-');
            }
            assert(false);
        }
        if n < m {
            assert(q[f + n + 1] == 'k');
            if n + 1 < m {
                assert(p[f + n + 1] == x[n + 1]);
                lemma_no_letter(a as int, n + 1);
            } else {
                assert(p[f + n + 1] == '-');
            }
            assert(false);
        }
        assert(x =~= p.subrange(f, f + m));
        assert(y =~= q.subrange(f, f + m));
        assert(p.len() == f + m + 4 + u.len() + end.len());
        assert(q.len() == f + n + 4 + v.len() + end.len());
        assert(u.len() == v.len());
        assert(u =~= p.subrange(f + m + 4, f + m + 4 + u.len()));
        assert(v =~= q.subrange(f + m + 4, f + m + 4 + u.len()));
        printed_integers_are_read_back(a as int);
        printed_integers_are_read_back(b as int);
        printed_integers_are_read_back(k as int);
        printed_integers_are_read_back(l as int);
    }
}

/// Whoever starts a second instance is told which account and key it is about, and the detail.
pub proof fn refusals_name_the_pair(a: i64, k: i32, detail: Seq<char>)
    ensures
        ({
            let m = running_message(a, k, detail);
            &&& occurs(m, "account_index="@ + signed_decimal(a as int))
            &&& occurs(m, " api_key_index="@ + signed_decimal(k as int))
            &&& occurs(m, "("@ + detail + ")"@)
        }),
{
    let m = running_message(a, k, detail);
    let x = signed_decimal(a as int);
    let y = signed_decimal(k as int);
    reveal_strlit("another lighter-mm instance is ALREADY RUNNING for account_index=");
    reveal_strlit("account_index=");
    reveal_strlit(" api_key_index=");
    reveal_strlit(" (");
    reveal_strlit("(");
    reveal_strlit(")");
    reveal_strlit(
        "). Two bots on the same (account, api-key) share ONE exchange nonce sequence and WILL corrupt each other ('invalid nonce' cascade) and double-place orders. Refusing to start.",
    );
    let head = "another lighter-mm instance is ALREADY RUNNING for account_index="@;
    let word = "account_index="@;
    let at = head.len() - word.len();
    assert(head.subrange(at, head.len() as int) =~= word);
    assert(occurs_at(m, word + x, at)) by {
        assert(m.subrange(at, at + (word + x).len()) =~= word + x);
    }
    let second = head.len() + x.len();
    let api = " api_key_index="@ + y;
    assert(occurs_at(m, api, second as int)) by {
        assert(m.subrange(second as int, second as int + api.len()) =~= api);
    }
    let third = second + api.len() + 1;
    let said = "("@ + detail + ")"@;
    assert(occurs_at(m, said, third as int)) by {
        assert(m.subrange(third as int, third as int + said.len()) =~= said);
    }
}

} // verus!
