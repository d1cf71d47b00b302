//! What the replies of the exchange's REST interface mean.
use vstd::prelude::*;
use crate::json::{integer_of, member, Document, Json};
use crate::lighter::messages::{OrderBookDetail, TxResponse};
use crate::text::{chars_of, equals_ignoring_case, same_ignoring_case};
use crate::types::{TxSendResult, TxSendStatus};

verus! {

/// A base address without slashes at its end.
pub open spec fn without_slashes(s: Seq<char>) -> Seq<char>
    decreases s.len(),
{
    if s.len() > 0 && s.last() == '/' {
        without_slashes(s.drop_last())
    } else {
        s
    }
}

/// A base address without slashes at its end.
pub fn normalize_base(url: &str) -> (r: &str)
    ensures
        r@ == without_slashes(url@),
{
    let c: Vec<char> = chars_of(url);
    let mut n: usize = c.len();
    proof {
        assert(url@.subrange(0, n as int) =~= url@);
    }
    while n > 0 && c[n - 1] == '/'
        invariant
            c@ == url@,
            n <= c@.len(),
            without_slashes(url@) == without_slashes(url@.subrange(0, n as int)),
        decreases n,
    {
        proof {
            assert(url@.subrange(0, n as int).drop_last() =~= url@.subrange(0, n - 1));
        }
        n = n - 1;
    }
    url.substring_char(0, n)
}

/// The first market with the given symbol.
pub open spec fn market_at(books: Seq<OrderBookDetail>, symbol: Seq<char>, i: int) -> bool {
    &&& 0 <= i < books.len()
    &&& same_ignoring_case(books[i].symbol@, symbol)
    &&& forall|j: int| 0 <= j < i ==> !same_ignoring_case(#[trigger] books[j].symbol@, symbol)
}

/// The index of the first market with the given symbol, whatever its case.
pub fn find_market(books: &Vec<OrderBookDetail>, symbol: &str) -> (r: Option<usize>)
    ensures
        match r {
            Some(i) => market_at(books@, symbol@, i as int),
            None => forall|j: int|
                0 <= j < books@.len() ==> !same_ignoring_case(
                    #[trigger] books@[j].symbol@,
                    symbol@,
                ),
        },
{
    let mut i: usize = 0;
    while i < books.len()
        invariant
            i <= books@.len(),
            forall|j: int|
                0 <= j < i ==> !same_ignoring_case(#[trigger] books@[j].symbol@, symbol@),
        decreases books@.len() - i,
    {
        if equals_ignoring_case(books[i].symbol.as_str(), symbol) {
            return Some(i);
        }
        i = i + 1;
    }
    None
}

/// A number as a reply gives it, still to be read.
#[derive(Clone, Debug)]
pub enum Reading {
    /// In digits: a JSON string, or a number that is no integer.
    Digits(String),
    Unsigned(u64),
    Signed(i64),
    /// Missing, or no number: zero.
    Zero,
}

/// What number a member is.
pub open spec fn reads_as(d: Option<Document>, r: Reading) -> bool {
    match d {
        Some(Document::Text(t)) => r matches Reading::Digits(x) && x@ == t,
        Some(Document::Fraction(t)) => r matches Reading::Digits(x) && x@ == t,
        Some(Document::Unsigned(n)) => r == Reading::Unsigned(n),
        Some(Document::Signed(n)) => r == Reading::Signed(n),
        _ => r is Zero,
    }
}

/// What number a member is.
fn reading(v: Option<&Json>) -> (r: Reading)
    ensures
        reads_as(
            match v {
                Some(j) => Some(j@),
                None => None,
            },
            r,
        ),
{
    match v {
        Some(Json::Text(s)) => Reading::Digits(s.clone()),
        Some(Json::Fraction(s)) => Reading::Digits(s.clone()),
        Some(Json::Unsigned(n)) => Reading::Unsigned(*n),
        Some(Json::Signed(n)) => Reading::Signed(*n),
        _ => Reading::Zero,
    }
}

/// The positions in an account reply: those of its first account.
pub open spec fn account_positions(d: Document) -> Option<Seq<Document>> {
    match member(d, "accounts"@) {
        Some(Document::List(accounts)) => if accounts.len() > 0 {
            match member(accounts[0], "positions"@) {
                Some(Document::List(positions)) => Some(positions),
                _ => None,
            }
        } else {
            None
        },
        _ => None,
    }
}

/// Whether a position is that of the market.
pub open spec fn of_market(p: Document, market_id: u32) -> bool {
    member(p, "market_id"@) == Some(Document::Unsigned(market_id as u64))
}

/// The first position of a market, from index `i` on.
pub open spec fn position_from(positions: Seq<Document>, market_id: u32, i: int) -> Option<Document>
    decreases positions.len() - i,
{
    if i >= positions.len() || i < 0 {
        None
    } else if of_market(positions[i], market_id) {
        Some(positions[i])
    } else {
        position_from(positions, market_id, i + 1)
    }
}

/// The position of a market in an account reply.
pub open spec fn reported_position(d: Document, market_id: u32) -> Option<Document> {
    match account_positions(d) {
        Some(positions) => position_from(positions, market_id, 0),
        None => None,
    }
}

/// Whether a reported position is short.
pub open spec fn is_short(p: Document) -> bool {
    match member(p, "sign"@) {
        Some(s) => integer_of(s) is Some && integer_of(s)->0 < 0,
        None => false,
    }
}

/// The position of a market in an account reply: its magnitude as given, and whether it is
/// short. `None` where the account has no position in the market.
pub fn account_position(reply: &Json, market_id: u32) -> (r: Option<(Reading, bool)>)
    ensures
        match reported_position(reply@, market_id) {
            Some(p) => r matches Some(x) && reads_as(member(p, "position"@), x.0) && x.1
                == is_short(p),
            None => r is None,
        },
{
    let accounts: &Vec<Json> = match reply.get("accounts") {
        Some(a) => match a.as_list() {
            Some(l) => l,
            None => {
                return None;
            },
        },
        None => {
            return None;
        },
    };
    if accounts.len() == 0 {
        return None;
    }
    let positions: &Vec<Json> = match accounts[0].get("positions") {
        Some(p) => match p.as_list() {
            Some(l) => l,
            None => {
                return None;
            },
        },
        None => {
            return None;
        },
    };
    let ghost listed = account_positions(reply@)->0;
    let mut i: usize = 0;
    while i < positions.len()
        invariant
            i <= positions@.len() == listed.len(),
            account_positions(reply@) == Some(listed),
            forall|k: int| 0 <= k < positions@.len() ==> #[trigger] listed[k] == positions@[k]@,
            reported_position(reply@, market_id) == position_from(listed, market_id, i as int),
        decreases positions@.len() - i,
    {
        let p: &Json = &positions[i];
        proof {
            assert(listed[i as int] == positions@[i as int]@);
        }
        let same: bool = match p.get("market_id") {
            Some(Json::Unsigned(m)) => *m == market_id as u64,
            _ => false,
        };
        if same {
            let short: bool = match p.get("sign") {
                Some(s) => match s.as_i64() {
                    Some(n) => n < 0,
                    None => false,
                },
                None => false,
            };
            return Some((reading(p.get("position")), short));
        }
        i = i + 1;
    }
    None
}

/// Whether a code means success.
pub open spec fn code_ok(code: i64) -> bool {
    code == 0 || code == 200
}

/// Whether a code means success.
pub fn is_success_code(code: i64) -> (r: bool)
    ensures
        r == code_ok(code),
{
    code == 0 || code == 200
}

/// What a reply to a transaction says: the reply itself where its body could be read, success
/// where it could not but the status was one of success, and `None` (the outcome cannot be
/// told) otherwise.
pub fn tx_response(body: Option<TxResponse>, status_ok: bool) -> (r: Option<TxResponse>)
    ensures
        match body {
            Some(tx) => r == Some(tx),
            None => if status_ok {
                r matches Some(tx) && tx.code == 0 && tx.message@.len() == 0
                    && tx.volume_quota_remaining is None
            } else {
                r is None
            },
        },
{
    match body {
        Some(tx) => Some(tx),
        None => if status_ok {
            Some(
                TxResponse { code: 0, message: String::new(), volume_quota_remaining: None },
            )
        } else {
            None
        },
    }
}

/// The outcome of a transaction sent over REST. A transport error after the request may have
/// been written leaves the outcome open.
pub fn rest_result(reply: Result<TxResponse, String>) -> (r: TxSendResult)
    ensures
        match reply {
            Ok(tx) => r.status == if code_ok(tx.code) {
                TxSendStatus::Accepted
            } else {
                TxSendStatus::Rejected
            } && r.code == tx.code && r.message@ == tx.message@ && r.quota_remaining
                == tx.volume_quota_remaining,
            Err(e) => r.status == TxSendStatus::Unknown && r.code == -1 && r.message@
                == "rest_err:"@ + e@ && r.quota_remaining is None,
        },
{
    match reply {
        Ok(tx) => TxSendResult {
            status: if is_success_code(tx.code) {
                TxSendStatus::Accepted
            } else {
                TxSendStatus::Rejected
            },
            code: tx.code,
            message: tx.message,
            quota_remaining: tx.volume_quota_remaining,
        },
        Err(e) => TxSendResult::unknown(
            vstd::string::StringExecFns::concat("rest_err:".to_owned(), e.as_str()),
        ),
    }
}

/// A base address loses the slashes at its end and nothing else.
pub proof fn bases_lose_their_slashes(s: Seq<char>)
    ensures
        ({
            let r = without_slashes(s);
            &&& r.len() <= s.len() && r == s.take(r.len() as int)
            &&& r.len() > 0 ==> r[r.len() - 1] != '/'
            &&& forall|i: int| r.len() <= i < s.len() ==> #[trigger] s[i] == '/'
        }),
    decreases s.len(),
{
    if s.len() > 0 && s.last() == '/' {
        bases_lose_their_slashes(s.drop_last());
        let r = without_slashes(s);
        assert(r =~= s.take(r.len() as int));
        assert forall|i: int| r.len() <= i < s.len() implies #[trigger] s[i] == '/' by {
            if i < s.len() - 1 {
                assert(s.drop_last()[i] == s[i]);
            }
        }
    } else {
        assert(s =~= s.take(s.len() as int));
    }
}

/// The position of a market is the first one in the list of the first account that names the market;
/// there is none exactly where no one does.
pub proof fn positions_are_found_by_their_market(
    positions: Seq<Document>,
    market_id: u32,
    i: int,
)
    requires
        0 <= i,
    ensures
        match position_from(positions, market_id, i) {
            Some(p) => exists|k: int|
                i <= k < positions.len() && #[trigger] positions[k] == p && member(p, "market_id"@)
                    == Some(Document::Unsigned(market_id as u64)) && forall|j: int|
                    i <= j < k ==> member(#[trigger] positions[j], "market_id"@) != Some(
                        Document::Unsigned(market_id as u64),
                    ),
            None => forall|j: int|
                i <= j < positions.len() ==> member(#[trigger] positions[j], "market_id"@) != Some(
                    Document::Unsigned(market_id as u64),
                ),
        },
    decreases positions.len() - i,
{
    if i < positions.len() {
        if of_market(positions[i], market_id) {
            assert(positions[i] == position_from(positions, market_id, i)->0);
        } else {
            positions_are_found_by_their_market(positions, market_id, i + 1);
        }
    }
}

/// Where an account reply holds its positions, and which of them is short: that whose sign is an
/// integer below zero. A code of 0 or of 200 means success, and no other.
pub proof fn replies_hold_positions_and_codes(
    d: Document,
    accounts: Seq<Document>,
    positions: Seq<Document>,
    p: Document,
    n: i64,
)
    ensures
        member(d, "accounts"@) == Some(Document::List(accounts)) && accounts.len() > 0 && member(
            accounts[0],
            "positions"@,
        ) == Some(Document::List(positions)) ==> account_positions(d) == Some(positions),
        member(d, "accounts"@) is None ==> account_positions(d) is None,
        member(p, "sign"@) == Some(Document::Signed(n)) ==> (is_short(p) <==> n < 0),
        n >= 0 && member(p, "sign"@) == Some(Document::Unsigned(n as u64)) ==> !is_short(p),
        member(p, "sign"@) is None ==> !is_short(p),
        code_ok(n) <==> n == 0 || n == 200,
{
}

/// The position of a market in an account reply is the first one of the first account that names the
/// market, from the front of the list.
pub proof fn replies_give_the_position_of_a_market(
    d: Document,
    accounts: Seq<Document>,
    positions: Seq<Document>,
    market_id: u32,
    k: int,
)
    requires
        member(d, "accounts"@) == Some(Document::List(accounts)),
        accounts.len() > 0,
        member(accounts[0], "positions"@) == Some(Document::List(positions)),
        0 <= k < positions.len(),
        member(positions[k], "market_id"@) == Some(Document::Unsigned(market_id as u64)),
        forall|j: int|
            0 <= j < k ==> member(#[trigger] positions[j], "market_id"@) != Some(
                Document::Unsigned(market_id as u64),
            ),
    ensures
        reported_position(d, market_id) == Some(positions[k]),
{
    positions_are_found_by_their_market(positions, market_id, 0);
    let r = position_from(positions, market_id, 0);
    if r is Some {
        let i = choose|i: int|
            0 <= i < positions.len() && #[trigger] positions[i] == r->0 && member(
                r->0,
                "market_id"@,
            ) == Some(Document::Unsigned(market_id as u64)) && forall|j: int|
                0 <= j < i ==> member(#[trigger] positions[j], "market_id"@) != Some(
                    Document::Unsigned(market_id as u64),
                );
        if i < k {
            assert(member(positions[i], "market_id"@) != Some(
                Document::Unsigned(market_id as u64),
            ));
        }
    }
}

/// A number is read as it is written: texts and fractions as their digits, integers as they are, and
/// anything else as nothing.
pub proof fn numbers_are_read_as_written(d: Option<Document>, r: Reading, t: Seq<char>, n: u64, i: i64)
    requires
        reads_as(d, r),
    ensures
        d == Some(Document::Text(t)) || d == Some(Document::Fraction(t)) ==> r is Digits
            && r->Digits_0@ == t,
        d == Some(Document::Unsigned(n)) ==> r == Reading::Unsigned(n),
        d == Some(Document::Signed(i)) ==> r == Reading::Signed(i),
        d is None ==> r is Zero,
        r is Digits ==> d is Some && (d->0 is Text || d->0 is Fraction),
{
}

} // verus!
