//! Signing of a batch: one request to the signer per operation, each with a nonce of its own.
//!
//! A batch is signed whole or not at all: when one operation cannot be signed, every nonce
//! reserved for the batch is given back, since nothing was sent.
use vstd::prelude::*;
use vstd::string::StringExecFns;
use crate::lighter::nonce::{Nonces, NonceManager};
use crate::lighter::signer::{
    SignRequest, SignedTx, DEFAULT_28_DAY_ORDER_EXPIRY, NIL_TRIGGER_PRICE, ORDER_TYPE_LIMIT,
    TIF_POST_ONLY,
};
use crate::text::{signed_decimal, signed_text};
use crate::types::{BatchOp, OrderAction, Side};

verus! {

/// Price and amount of an operation in the exchange's integer units.
#[derive(Clone, Copy, Debug, PartialEq, Eq, Structural)]
pub struct RawOrder {
    pub price: i64,
    pub amount: i64,
}

/// Why a batch could not be signed.
#[derive(Clone, Debug)]
pub enum SignError {
    /// The price of a create does not fit in 32 bits without sign.
    PriceOutOfRange(i64),
    /// A modify names no exchange order; the client order it is for.
    ModifyWithoutId(i64),
    /// A cancel names no exchange order; the client order it is for.
    CancelWithoutId(i64),
    /// The signer refused.
    Signer(OrderAction, String),
}

/// The name of an action.
pub open spec fn action_text(a: OrderAction) -> Seq<char> {
    match a {
        OrderAction::Create => "Create"@,
        OrderAction::Modify => "Modify"@,
        OrderAction::Cancel => "Cancel"@,
    }
}

/// The error in words.
pub open spec fn error_text(e: SignError) -> Seq<char> {
    match e {
        SignError::PriceOutOfRange(p) => "create price raw "@ + signed_decimal(p as int)
            + " outside u32 range"@,
        SignError::ModifyWithoutId(c) => "modify op missing exchange_id (client "@
            + signed_decimal(c as int) + ")"@,
        SignError::CancelWithoutId(c) => "cancel op missing exchange_id (client "@
            + signed_decimal(c as int) + ")"@,
        SignError::Signer(a, e) => "sign "@ + action_text(a) + " failed: "@ + e@,
    }
}

impl SignError {
    /// The error in words.
    pub fn message(&self) -> (r: String)
        ensures
            r@ == error_text(*self),
    {
        match self {
            SignError::PriceOutOfRange(p) => {
                let n: String = signed_text(*p);
                "create price raw ".to_owned().concat(n.as_str()).concat(" outside u32 range")
            },
            SignError::ModifyWithoutId(c) => {
                let n: String = signed_text(*c);
                "modify op missing exchange_id (client ".to_owned().concat(n.as_str()).concat(")")
            },
            SignError::CancelWithoutId(c) => {
                let n: String = signed_text(*c);
                "cancel op missing exchange_id (client ".to_owned().concat(n.as_str()).concat(")")
            },
            SignError::Signer(a, e) => {
                let name: &str = match a {
                    OrderAction::Create => "Create",
                    OrderAction::Modify => "Modify",
                    OrderAction::Cancel => "Cancel",
                };
                "sign ".to_owned().concat(name).concat(" failed: ").concat(e.as_str())
            },
        }
    }
}

/// A 32-bit pattern read with a sign.
pub open spec fn signed_pattern(x: int) -> int {
    if x <= i32::MAX {
        x
    } else {
        x - 0x1_0000_0000
    }
}

/// A 32-bit pattern read with a sign.
fn as_signed(x: u32) -> (r: i32)
    ensures
        r == signed_pattern(x as int),
{
    if x <= 0x7FFF_FFFF {
        x as i32
    } else {
        (x - 0x8000_0000) as i32 + i32::MIN
    }
}

/// What the signer is asked for an operation, or why it cannot be asked.
pub open spec fn request_for(
    op: BatchOp,
    raw: RawOrder,
    market_id: u32,
    nonce: int,
    api_key_index: i32,
) -> Result<SignRequest, SignError> {
    let market_index = signed_pattern(market_id as int) as i32;
    match op.action {
        OrderAction::Create => if 0 <= raw.price <= u32::MAX {
            Ok(
                SignRequest::CreateOrder {
                    market_index,
                    client_order_index: op.client_order_id,
                    base_amount: raw.amount,
                    price: signed_pattern(raw.price as int) as i32,
                    is_ask: op.side == Side::Sell,
                    order_type: ORDER_TYPE_LIMIT,
                    time_in_force: TIF_POST_ONLY,
                    reduce_only: op.reduce_only,
                    trigger_price: NIL_TRIGGER_PRICE,
                    order_expiry: DEFAULT_28_DAY_ORDER_EXPIRY,
                    nonce: nonce as i64,
                    api_key_index,
                },
            )
        } else {
            Err(SignError::PriceOutOfRange(raw.price))
        },
        OrderAction::Modify => match op.exchange_id {
            Some(order_index) => Ok(
                SignRequest::ModifyOrder {
                    market_index,
                    order_index,
                    base_amount: raw.amount,
                    price: raw.price,
                    trigger_price: 0,
                    nonce: nonce as i64,
                    api_key_index,
                },
            ),
            None => Err(SignError::ModifyWithoutId(op.client_order_id)),
        },
        OrderAction::Cancel => match op.exchange_id {
            Some(order_index) => Ok(
                SignRequest::CancelOrder {
                    market_index,
                    order_index,
                    nonce: nonce as i64,
                    api_key_index,
                },
            ),
            None => Err(SignError::CancelWithoutId(op.client_order_id)),
        },
    }
}

/// What the signer is asked for an operation, or why it cannot be asked.
pub fn sign_request(
    op: &BatchOp,
    raw: RawOrder,
    market_id: u32,
    nonce: i64,
    api_key_index: i32,
) -> (r: Result<SignRequest, SignError>)
    ensures
        r == request_for(*op, raw, market_id, nonce as int, api_key_index),
{
    let market_index: i32 = as_signed(market_id);
    match op.action {
        OrderAction::Create => if 0 <= raw.price && raw.price <= 0xFFFF_FFFF {
            Ok(
                SignRequest::CreateOrder {
                    market_index,
                    client_order_index: op.client_order_id,
                    base_amount: raw.amount,
                    price: as_signed(raw.price as u32),
                    is_ask: op.side.is_ask(),
                    order_type: ORDER_TYPE_LIMIT,
                    time_in_force: TIF_POST_ONLY,
                    reduce_only: op.reduce_only,
                    trigger_price: NIL_TRIGGER_PRICE,
                    order_expiry: DEFAULT_28_DAY_ORDER_EXPIRY,
                    nonce,
                    api_key_index,
                },
            )
        } else {
            Err(SignError::PriceOutOfRange(raw.price))
        },
        OrderAction::Modify => match op.exchange_id {
            Some(order_index) => Ok(
                SignRequest::ModifyOrder {
                    market_index,
                    order_index,
                    base_amount: raw.amount,
                    price: raw.price,
                    trigger_price: 0,
                    nonce,
                    api_key_index,
                },
            ),
            None => Err(SignError::ModifyWithoutId(op.client_order_id)),
        },
        OrderAction::Cancel => match op.exchange_id {
            Some(order_index) => Ok(
                SignRequest::CancelOrder { market_index, order_index, nonce, api_key_index },
            ),
            None => Err(SignError::CancelWithoutId(op.client_order_id)),
        },
    }
}

/// A signed batch: the wire's two lists, and the operations that they stand for.
#[derive(Clone, Debug)]
pub struct SignedBatch {
    pub tx_types: Vec<u8>,
    pub tx_infos: Vec<String>,
    pub ops: Vec<BatchOp>,
}

/// A batch that is being signed, operation by operation.
#[derive(Debug)]
pub struct BatchSigner {
    market_id: u32,
    ops: Vec<BatchOp>,
    /// The nonce counter's value when the batch was begun.
    base: i64,
    /// Whether the signer was asked for the next operation and has not answered yet.
    asked: bool,
    tx_types: Vec<u8>,
    tx_infos: Vec<String>,
}

/// How far a batch is.
pub struct Signing {
    pub market_id: u32,
    pub ops: Seq<BatchOp>,
    pub base: int,
    pub asked: bool,
    /// Type and text of each transaction signed so far.
    pub signed: Seq<(u8, Seq<char>)>,
}

impl View for BatchSigner {
    type V = Signing;

    closed spec fn view(&self) -> Signing {
        Signing {
            market_id: self.market_id,
            ops: self.ops@,
            base: self.base as int,
            asked: self.asked,
            signed: Seq::new(
                self.tx_types@.len(),
                |i: int| (self.tx_types@[i], self.tx_infos@[i]@),
            ),
        }
    }
}

/// The operation to be signed next.
pub open spec fn next_op(s: Signing) -> Option<BatchOp> {
    if s.signed.len() < s.ops.len() {
        Some(s.ops[s.signed.len() as int])
    } else {
        None
    }
}

/// Nonces that a batch has reserved.
pub open spec fn held(s: Signing) -> int {
    s.signed.len() + if s.asked { 1int } else { 0int }
}

/// Whether a counter is where a batch has taken it.
pub open spec fn in_tune(s: Signing, n: Nonces) -> bool {
    n.last == s.base + held(s)
}

impl BatchSigner {
    /// No more was signed than there is to sign.
    pub closed spec fn wf(&self) -> bool {
        &&& self.tx_types@.len() == self.tx_infos@.len()
        &&& self.tx_types@.len() <= self.ops@.len()
        &&& self.asked ==> self.tx_types@.len() < self.ops@.len()
        &&& self.base + self.ops@.len() <= i64::MAX
    }

    /// Begins a batch. The counter must have room for a nonce per operation.
    pub fn begin(market_id: u32, ops: Vec<BatchOp>, nonce: &NonceManager) -> (r: BatchSigner)
        requires
            nonce@.last + ops@.len() <= i64::MAX,
        ensures
            r.wf(),
            r@ == (Signing {
                market_id,
                ops: ops@,
                base: nonce@.last,
                asked: false,
                signed: Seq::empty(),
            }),
            in_tune(r@, nonce@),
    {
        let r: BatchSigner = BatchSigner {
            market_id,
            ops,
            base: nonce.last(),
            asked: false,
            tx_types: Vec::new(),
            tx_infos: Vec::new(),
        };
        proof {
            assert(r@.signed =~= Seq::empty());
        }
        r
    }

    /// The operation to be signed next; `None` once all are.
    pub fn pending(&self) -> (r: Option<BatchOp>)
        requires
            self.wf(),
        ensures
            r == if self@.signed.len() < self@.ops.len() {
                Some(self@.ops[self@.signed.len() as int])
            } else {
                None
            },
            r == next_op(self@),
    {
        if self.tx_types.len() < self.ops.len() {
            Some(self.ops[self.tx_types.len()])
        } else {
            None
        }
    }

    /// Reserves a nonce for the next operation and gives what to ask the signer. Where the
    /// operation cannot be signed, every nonce of the batch is given back.
    pub fn request(&mut self, nonce: &mut NonceManager, raw: RawOrder) -> (r: Result<
        SignRequest,
        SignError,
    >)
        requires
            old(self).wf(),
            !old(self)@.asked,
            old(self)@.signed.len() < old(self)@.ops.len(),
            in_tune(old(self)@, old(nonce)@),
        ensures
            r == request_for(
                old(self)@.ops[old(self)@.signed.len() as int],
                raw,
                old(self)@.market_id,
                old(nonce)@.last + 1,
                old(nonce)@.api_key_index,
            ),
            r is Ok ==> final(self).wf() && final(self)@ == (Signing {
                asked: true,
                ..old(self)@
            }) && in_tune(final(self)@, final(nonce)@),
            r is Err ==> final(self)@ == old(self)@,
            final(nonce)@ == (Nonces {
                last: if r is Ok {
                    old(nonce)@.last + 1
                } else {
                    old(self)@.base
                },
                ..old(nonce)@
            }),
    {
        let at: usize = self.tx_types.len();
        let total: usize = self.ops.len();
        assert(at < total);
        let op: BatchOp = self.ops[at];
        let api_key_index: i32 = nonce.api_key_index();
        let n: i64 = nonce.next();
        match sign_request(&op, raw, self.market_id, n, api_key_index) {
            Ok(request) => {
                self.asked = true;
                proof {
                    assert(self@.signed =~= old(self)@.signed);
                }
                Ok(request)
            },
            Err(e) => {
                nonce.rollback(at + 1);
                Err(e)
            },
        }
    }

    /// Takes what the signer signed.
    pub fn accept(&mut self, tx: SignedTx)
        requires
            old(self).wf(),
            old(self)@.asked,
        ensures
            final(self).wf(),
            final(self)@ == (Signing {
                asked: false,
                signed: old(self)@.signed.push((tx.tx_type, tx.tx_info@)),
                ..old(self)@
            }),
    {
        self.tx_types.push(tx.tx_type);
        self.tx_infos.push(tx.tx_info);
        self.asked = false;
        proof {
            assert(self@.signed =~= old(self)@.signed.push((tx.tx_type, tx.tx_info@)));
        }
    }

    /// The signer refused: every nonce of the batch is given back.
    pub fn refuse(&mut self, nonce: &mut NonceManager, error: String) -> (r: SignError)
        requires
            old(self).wf(),
            old(self)@.asked,
            in_tune(old(self)@, old(nonce)@),
        ensures
            r matches SignError::Signer(a, e) && a == old(self)@.ops[old(
                self,
            )@.signed.len() as int].action && e@ == error@,
            final(self)@ == (Signing { asked: false, ..old(self)@ }),
            final(nonce)@ == (Nonces { last: old(self)@.base, ..old(nonce)@ }),
    {
        let at: usize = self.tx_types.len();
        let total: usize = self.ops.len();
        assert(at < total);
        let op: BatchOp = self.ops[at];
        nonce.rollback(at + 1);
        self.asked = false;
        proof {
            assert(self@.signed =~= old(self)@.signed);
        }
        SignError::Signer(op.action, error)
    }

    /// The batch once every operation is signed: its lists run in step with the operations.
    pub fn finish(self) -> (r: SignedBatch)
        requires
            self.wf(),
            !self@.asked,
            self@.signed.len() == self@.ops.len(),
        ensures
            r.ops@ == self@.ops,
            r.tx_types@.len() == r.ops@.len(),
            r.tx_infos@.len() == r.ops@.len(),
            forall|i: int|
                0 <= i < r.ops@.len() ==> (r.tx_types@[i], #[trigger] r.tx_infos@[i]@)
                    == self@.signed[i],
    {
        SignedBatch { tx_types: self.tx_types, tx_infos: self.tx_infos, ops: self.ops }
    }
}

/// What the signer is asked for. A create asks for a limit order that only makes, under the
/// operation's client id, on its side; a modify and a cancel name the operation's order of the
/// exchange. A create and a modify ask for the raw amount and the raw price, which a create carries
/// as a 32-bit pattern; each request carries the market, the nonce and the key that it is given.
/// A create is refused exactly where its price does not fit in 32 bits, a modify and a cancel
/// exactly where they name no order.
pub proof fn requests_ask_for_their_operation(
    op: BatchOp,
    raw: RawOrder,
    market_id: u32,
    nonce: i64,
    api_key_index: i32,
)
    ensures
        ({
            let r = request_for(op, raw, market_id, nonce as int, api_key_index);
            let market = if market_id < 0x8000_0000 {
                market_id as int
            } else {
                market_id - 0x1_0000_0000
            };
            &&& op.action == OrderAction::Create && (raw.price < 0 || raw.price > 0xFFFF_FFFF)
                ==> r == Err::<SignRequest, SignError>(SignError::PriceOutOfRange(raw.price))
            &&& op.action == OrderAction::Modify && op.exchange_id is None ==> r == Err::<
                SignRequest,
                SignError,
            >(SignError::ModifyWithoutId(op.client_order_id))
            &&& op.action == OrderAction::Cancel && op.exchange_id is None ==> r == Err::<
                SignRequest,
                SignError,
            >(SignError::CancelWithoutId(op.client_order_id))
            &&& op.action == OrderAction::Create && 0 <= raw.price <= 0xFFFF_FFFF ==> {
                &&& r matches Ok(
                    SignRequest::CreateOrder {
                        market_index,
                        client_order_index,
                        base_amount,
                        price,
                        is_ask,
                        order_type,
                        time_in_force,
                        reduce_only,
                        trigger_price,
                        order_expiry,
                        nonce: n,
                        api_key_index: k,
                    },
                )
                &&& market_index == market
                &&& client_order_index == op.client_order_id
                &&& base_amount == raw.amount
                &&& raw.price < 0x8000_0000 ==> price == raw.price
                &&& raw.price >= 0x8000_0000 ==> price == raw.price - 0x1_0000_0000
                &&& is_ask <==> op.side == Side::Sell
                &&& order_type == 0 && time_in_force == 2
                &&& reduce_only == op.reduce_only
                &&& trigger_price == 0 && order_expiry == -1
                &&& n == nonce && k == api_key_index
            }
            &&& op.action == OrderAction::Modify && op.exchange_id is Some ==> {
                &&& r matches Ok(
                    SignRequest::ModifyOrder {
                        market_index,
                        order_index,
                        base_amount,
                        price,
                        trigger_price,
                        nonce: n,
                        api_key_index: k,
                    },
                )
                &&& market_index == market
                &&& Some(order_index) == op.exchange_id
                &&& base_amount == raw.amount
                &&& price == raw.price
                &&& trigger_price == 0
                &&& n == nonce && k == api_key_index
            }
            &&& op.action == OrderAction::Cancel && op.exchange_id is Some ==> {
                &&& r matches Ok(
                    SignRequest::CancelOrder {
                        market_index,
                        order_index,
                        nonce: n,
                        api_key_index: k,
                    },
                )
                &&& market_index == market
                &&& Some(order_index) == op.exchange_id
                &&& n == nonce && k == api_key_index
            }
        }),
{
}

/// The nonces of a batch follow one another from the first one after the counter's value at its
/// begin: an operation is asked for with the nonce that lies as far behind that value as there are
/// operations signed before it, and one more.
pub proof fn each_operation_has_its_own_nonce(s: Signing, n: Nonces)
    requires
        in_tune(s, n),
    ensures
        !s.asked ==> n.last + 1 == s.base + s.signed.len() + 1,
        s.asked ==> n.last == s.base + s.signed.len() + 1,
{
}

/// Operations are signed in their order: after as many as were signed comes the one at that place, and
/// none after the last.
pub proof fn operations_are_signed_in_order(s: Signing)
    ensures
        s.signed.len() == 0 && s.ops.len() > 0 ==> next_op(s) == Some(s.ops[0]),
        s.signed.len() < s.ops.len() ==> next_op(s) == Some(s.ops[s.signed.len() as int]),
        s.signed.len() >= s.ops.len() ==> next_op(s) is None,
{
}

/// What is said of an operation that could not be signed names its price, its order, or its kind and
/// what the signer said.
pub proof fn refusals_are_told_in_words(p: i64, c: i64, a: OrderAction, e: String)
    ensures
        error_text(SignError::PriceOutOfRange(p)) == "create price raw "@ + signed_decimal(
            p as int,
        ) + " outside u32 range"@,
        error_text(SignError::ModifyWithoutId(c)) == "modify op missing exchange_id (client "@
            + signed_decimal(c as int) + ")"@,
        error_text(SignError::CancelWithoutId(c)) == "cancel op missing exchange_id (client "@
            + signed_decimal(c as int) + ")"@,
        a == OrderAction::Create ==> error_text(SignError::Signer(a, e)) == "sign "@ + "Create"@
            + " failed: "@ + e@,
        a == OrderAction::Modify ==> error_text(SignError::Signer(a, e)) == "sign "@ + "Modify"@
            + " failed: "@ + e@,
        a == OrderAction::Cancel ==> error_text(SignError::Signer(a, e)) == "sign "@ + "Cancel"@
            + " failed: "@ + e@,
{
}

} // verus!
