//! What the native signer is given and gives back.
use vstd::prelude::*;
use vstd::string::StringExecFns;
use crate::text::{contains_text, occurs, same_text};

verus! {

pub const ORDER_TYPE_LIMIT: i32 = 0;
pub const ORDER_TYPE_MARKET: i32 = 1;
pub const TIF_IMMEDIATE_OR_CANCEL: i32 = 0;
pub const TIF_GOOD_TILL_TIME: i32 = 1;
pub const TIF_POST_ONLY: i32 = 2;
pub const CANCEL_ALL_TIF_IMMEDIATE: i32 = 0;
pub const CANCEL_ALL_TIF_SCHEDULED: i32 = 1;
pub const CANCEL_ALL_TIF_ABORT: i32 = 2;
pub const NIL_TRIGGER_PRICE: i32 = 0;
pub const DEFAULT_28_DAY_ORDER_EXPIRY: i64 = -1;
pub const MARGIN_MODE_CROSS: i32 = 0;
pub const MARGIN_MODE_ISOLATED: i32 = 1;

/// A signed transaction.
#[derive(Clone, Debug)]
pub struct SignedTx {
    pub tx_type: u8,
    pub tx_info: String,
    pub tx_hash: String,
}

/// A transaction to be signed.
#[derive(Clone, Copy, Debug, PartialEq, Eq, Structural)]
#[allow(inconsistent_fields)]
pub enum SignRequest {
    CreateOrder {
        market_index: i32,
        client_order_index: i64,
        base_amount: i64,
        price: i32,
        is_ask: bool,
        order_type: i32,
        time_in_force: i32,
        reduce_only: bool,
        trigger_price: i32,
        order_expiry: i64,
        nonce: i64,
        api_key_index: i32,
    },
    ModifyOrder {
        market_index: i32,
        order_index: i64,
        base_amount: i64,
        price: i64,
        trigger_price: i64,
        nonce: i64,
        api_key_index: i32,
    },
    CancelOrder { market_index: i32, order_index: i64, nonce: i64, api_key_index: i32 },
    CancelAllOrders { time_in_force: i32, timestamp_ms: i64, nonce: i64, api_key_index: i32 },
    UpdateLeverage {
        market_index: i32,
        fraction: i32,
        margin_mode: i32,
        nonce: i64,
        api_key_index: i32,
    },
}

/// The text that is there and not empty.
pub open spec fn filled(o: Option<String>) -> Option<Seq<char>> {
    match o {
        Some(s) => if s@.len() > 0 {
            Some(s@)
        } else {
            None
        },
        None => None,
    }
}

/// Drops an empty text.
pub fn nonempty(o: Option<String>) -> (r: Option<String>)
    ensures
        match r {
            Some(s) => filled(o) == Some(s@),
            None => filled(o) is None,
        },
{
    match o {
        Some(s) => if s.as_str().is_empty() {
            None
        } else {
            Some(s)
        },
        None => None,
    }
}

/// A text that may be missing, empty where it is.
pub open spec fn text_or_empty(o: Option<String>) -> Seq<char> {
    match o {
        Some(s) => s@,
        None => Seq::empty(),
    }
}

/// What the signer gave back: an error where it named one, the signed transaction otherwise.
pub fn decode(
    tx_type: u8,
    tx_info: Option<String>,
    tx_hash: Option<String>,
    err: Option<String>,
) -> (r: Result<SignedTx, String>)
    ensures
        match r {
            Ok(tx) => filled(err) is None && tx.tx_type == tx_type && tx.tx_info@ == text_or_empty(
                tx_info,
            ) && tx.tx_hash@ == text_or_empty(tx_hash),
            Err(e) => filled(err) is Some && e@ == "sign error: "@ + filled(err)->0,
        },
{
    if let Some(e) = nonempty(err) {
        return Err("sign error: ".to_owned().concat(e.as_str()));
    }
    Ok(
        SignedTx {
            tx_type,
            tx_info: match tx_info {
                Some(s) => s,
                None => String::new(),
            },
            tx_hash: match tx_hash {
                Some(s) => s,
                None => String::new(),
            },
        },
    )
}

/// The chain that an endpoint belongs to.
pub open spec fn chain_id(url: Seq<char>) -> i32 {
    if occurs(url, "mainnet"@) || occurs(url, "api"@) {
        304
    } else {
        300
    }
}

/// The chain that an endpoint belongs to: 304 for the main network, 300 for the test network.
pub fn chain_id_for_url(url: &str) -> (r: i32)
    ensures
        r == chain_id(url@),
{
    if contains_text(url, "mainnet") || contains_text(url, "api") {
        304
    } else {
        300
    }
}

/// A private key without its `0x`.
pub open spec fn bare_key(key: Seq<char>) -> Seq<char> {
    if key.len() >= 2 && key[0] == '0' && key[1] == 'x' {
        key.subrange(2, key.len() as int)
    } else {
        key
    }
}

/// A private key without its `0x`.
pub fn strip_key_prefix(key: &str) -> (r: &str)
    ensures
        r@ == bare_key(key@),
{
    let n: usize = key.unicode_len();
    if n >= 2 && key.get_char(0) == '0' && key.get_char(1) == 'x' {
        key.substring_char(2, n)
    } else {
        key
    }
}

/// The signer's file for a platform.
pub open spec fn signer_file(os: Seq<char>, arch: Seq<char>) -> Option<Seq<char>> {
    if os == "linux"@ && arch == "x86_64"@ {
        Some("lighter-signer-linux-amd64.so"@)
    } else if os == "linux"@ && arch == "aarch64"@ {
        Some("lighter-signer-linux-arm64.so"@)
    } else if os == "macos"@ && arch == "aarch64"@ {
        Some("lighter-signer-darwin-arm64.dylib"@)
    } else if os == "windows"@ && arch == "x86_64"@ {
        Some("lighter-signer-windows-amd64.dll"@)
    } else {
        None
    }
}

/// The signer's file for a platform; `None` where the platform has none.
pub fn signer_filename(os: &str, arch: &str) -> (r: Option<&'static str>)
    ensures
        match r {
            Some(f) => signer_file(os@, arch@) == Some(f@),
            None => signer_file(os@, arch@) is None,
        },
{
    let x86: bool = same_text(arch, "x86_64");
    let arm: bool = same_text(arch, "aarch64");
    if same_text(os, "linux") && x86 {
        Some("lighter-signer-linux-amd64.so")
    } else if same_text(os, "linux") && arm {
        Some("lighter-signer-linux-arm64.so")
    } else if same_text(os, "macos") && arm {
        Some("lighter-signer-darwin-arm64.dylib")
    } else if same_text(os, "windows") && x86 {
        Some("lighter-signer-windows-amd64.dll")
    } else {
        None
    }
}

/// The main network is chain 304 and any other chain 300: an endpoint is the main network's exactly
/// where it speaks of it or of an interface.
pub proof fn endpoints_tell_their_chain(url: Seq<char>)
    ensures
        occurs(url, "mainnet"@) || occurs(url, "api"@) ==> chain_id(url) == 304,
        !occurs(url, "mainnet"@) && !occurs(url, "api"@) ==> chain_id(url) == 300,
{
}

/// A key loses one `0x` in front, and nothing else.
pub proof fn keys_lose_their_prefix(key: Seq<char>)
    ensures
        bare_key(seq!['0', 'x'] + key) == key,
        key.len() < 2 || key[0] != '0' || key[1] != 'x' ==> bare_key(key) == key,
{
    let k = seq!['0', 'x'] + key;
    assert(k.subrange(2, k.len() as int) =~= key);
}

/// Each platform that has a signer has its own file, and no other platform has one.
pub proof fn platforms_have_their_signer(os: Seq<char>, arch: Seq<char>)
    ensures
        signer_file("linux"@, "x86_64"@) == Some("lighter-signer-linux-amd64.so"@),
        signer_file("linux"@, "aarch64"@) == Some("lighter-signer-linux-arm64.so"@),
        signer_file("macos"@, "aarch64"@) == Some("lighter-signer-darwin-arm64.dylib"@),
        signer_file("windows"@, "x86_64"@) == Some("lighter-signer-windows-amd64.dll"@),
        signer_file(os, arch) is Some <==> (os == "linux"@ && (arch == "x86_64"@ || arch
            == "aarch64"@) || os == "macos"@ && arch == "aarch64"@ || os == "windows"@ && arch
            == "x86_64"@),
{
    reveal_strlit("linux");
    reveal_strlit("macos");
    reveal_strlit("windows");
    reveal_strlit("x86_64");
    reveal_strlit("aarch64");
    assert("linux"@[0] == 'l' && "macos"@[0] == 'm' && "windows"@[0] == 'w');
    assert("x86_64"@[0] == 'x' && "aarch64"@[0] == 'a');
}

/// A text counts exactly where it is there and not empty; a missing one is read as empty.
pub proof fn empty_texts_count_as_missing(s: String)
    ensures
        filled(None) is None && text_or_empty(None).len() == 0,
        s@.len() == 0 ==> filled(Some(s)) is None,
        s@.len() > 0 ==> filled(Some(s)) == Some(s@),
        text_or_empty(Some(s)) == s@,
{
}

} // verus!
