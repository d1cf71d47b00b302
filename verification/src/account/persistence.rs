//! The account state that survives a restart: what it holds, where it is kept, and how it is
//! stamped.
use vstd::prelude::*;
use vstd::string::StringExecFns;
use crate::num::{spec_zero, Num};
use crate::timestamps::{is_stamp, utc_now};

verus! {

/// Local account and last known state of the exchange.
#[derive(Clone, Debug)]
pub struct LiveState {
    pub account_index: i64,
    pub market_id: u32,
    pub position_size_est: Num,
    pub entry_vwap: Num,
    pub realized_pnl_cumulative: Num,
    pub fill_count: u64,
    pub volume_usd: Num,
    pub exchange_position_size: Num,
    pub exchange_entry_vwap: Option<Num>,
    pub portfolio_value: Num,
    pub available_capital: Num,
    pub symbol: String,
    pub updated_at: String,
}

/// Whether a state is the one of an account that was never saved.
pub open spec fn is_blank(s: LiveState) -> bool {
    &&& s.account_index == 0
    &&& s.market_id == 0
    &&& s.position_size_est == spec_zero()
    &&& s.entry_vwap == spec_zero()
    &&& s.realized_pnl_cumulative == spec_zero()
    &&& s.fill_count == 0
    &&& s.volume_usd == spec_zero()
    &&& s.exchange_position_size == spec_zero()
    &&& s.exchange_entry_vwap is None
    &&& s.portfolio_value == spec_zero()
    &&& s.available_capital == spec_zero()
    &&& s.symbol@.len() == 0
    &&& s.updated_at@.len() == 0
}

impl Default for LiveState {
    fn default() -> (r: LiveState)
        ensures
            is_blank(r),
    {
        LiveState {
            account_index: 0,
            market_id: 0,
            position_size_est: Num::zero(),
            entry_vwap: Num::zero(),
            realized_pnl_cumulative: Num::zero(),
            fill_count: 0,
            volume_usd: Num::zero(),
            exchange_position_size: Num::zero(),
            exchange_entry_vwap: None,
            portfolio_value: Num::zero(),
            available_capital: Num::zero(),
            symbol: String::new(),
            updated_at: String::new(),
        }
    }
}

/// Whether `r` is the state as it is written: under a symbol and a time.
pub open spec fn written(r: LiveState, state: LiveState, symbol: Seq<char>, at: Seq<char>) -> bool {
    &&& r.symbol@ == symbol
    &&& r.updated_at@ == at
    &&& (LiveState { symbol: state.symbol, updated_at: state.updated_at, ..r }) == state
}

/// Whether `r` is what is loaded of what was read: the state itself, or a blank one where nothing
/// was to be read.
pub open spec fn loaded(r: LiveState, read: Option<LiveState>) -> bool {
    match read {
        Some(s) => r == s,
        None => is_blank(r),
    }
}

/// A file in a directory.
pub open spec fn joined(dir: Seq<char>, name: Seq<char>) -> Seq<char> {
    if dir.len() == 0 {
        name
    } else if dir.last() == '/' {
        dir + name
    } else {
        dir + "/"@ + name
    }
}

/// A file in a directory.
pub fn join_path(dir: &str, name: &str) -> (r: String)
    ensures
        r@ == joined(dir@, name@),
{
    let n: usize = dir.unicode_len();
    if n == 0 {
        name.to_owned()
    } else if dir.get_char(n - 1) == '/' {
        dir.to_owned().concat(name)
    } else {
        dir.to_owned().concat("/").concat(name)
    }
}

/// Where the state of a market is kept, and under which symbol it is stamped.
#[derive(Clone, Debug)]
pub struct LiveStateStore {
    path: String,
    symbol: String,
}

impl LiveStateStore {
    /// The file.
    pub closed spec fn spec_path(&self) -> Seq<char> {
        self.path@
    }

    /// The symbol.
    pub closed spec fn spec_symbol(&self) -> Seq<char> {
        self.symbol@
    }

    /// The store of a market, in a directory.
    pub fn new(log_dir: &str, symbol: &str) -> (r: LiveStateStore)
        ensures
            r.spec_path() == joined(log_dir@, "live_state_"@ + symbol@ + ".json"@),
            r.spec_symbol() == symbol@,
    {
        let name: String = "live_state_".to_owned().concat(symbol).concat(".json");
        LiveStateStore { path: join_path(log_dir, name.as_str()), symbol: symbol.to_owned() }
    }

    /// The file.
    pub fn path(&self) -> (r: &str)
        ensures
            r@ == self.spec_path(),
    {
        self.path.as_str()
    }

    /// The symbol.
    pub fn symbol(&self) -> (r: &str)
        ensures
            r@ == self.spec_symbol(),
    {
        self.symbol.as_str()
    }

    /// The state that was read from the file: a blank one where the file is missing or not to be
    /// read.
    pub fn load(&self, read: Option<LiveState>) -> (r: LiveState)
        ensures
            loaded(r, read),
    {
        match read {
            Some(s) => s,
            None => LiveState::default(),
        }
    }

    /// The state as it is written now: under the store's symbol and the current time.
    pub fn save(&self, state: &LiveState) -> (r: LiveState)
        ensures
            written(r, *state, self.spec_symbol(), r.updated_at@),
            is_stamp(r.updated_at@),
    {
        let now: String = utc_now();
        self.save_at(state, now.as_str())
    }

    /// The state as it is written: under the store's symbol and the given time.
    pub fn save_at(&self, state: &LiveState, updated_at: &str) -> (r: LiveState)
        ensures
            written(r, *state, self.spec_symbol(), updated_at@),
    {
        LiveState {
            account_index: state.account_index,
            market_id: state.market_id,
            position_size_est: state.position_size_est,
            entry_vwap: state.entry_vwap,
            realized_pnl_cumulative: state.realized_pnl_cumulative,
            fill_count: state.fill_count,
            volume_usd: state.volume_usd,
            exchange_position_size: state.exchange_position_size,
            exchange_entry_vwap: state.exchange_entry_vwap,
            portfolio_value: state.portfolio_value,
            available_capital: state.available_capital,
            symbol: self.symbol.clone(),
            updated_at: updated_at.to_owned(),
        }
    }
}

/// A state that is written is the state itself, under the store's symbol and the given time; what is
/// loaded is what was read, and a blank state where nothing was.
pub proof fn written_states_keep_everything(
    r: LiveState,
    state: LiveState,
    symbol: Seq<char>,
    at: Seq<char>,
    blank: LiveState,
)
    requires
        written(r, state, symbol, at),
        loaded(blank, None),
    ensures
        r.symbol@ == symbol && r.updated_at@ == at,
        r.account_index == state.account_index && r.market_id == state.market_id,
        r.position_size_est == state.position_size_est && r.entry_vwap == state.entry_vwap,
        r.realized_pnl_cumulative == state.realized_pnl_cumulative,
        r.fill_count == state.fill_count && r.volume_usd == state.volume_usd,
        r.exchange_position_size == state.exchange_position_size,
        r.exchange_entry_vwap == state.exchange_entry_vwap,
        r.portfolio_value == state.portfolio_value,
        r.available_capital == state.available_capital,
        loaded(r, Some(state)) ==> r == state,
        blank.account_index == 0 && blank.market_id == 0 && blank.fill_count == 0,
        blank.position_size_est == spec_zero() && blank.entry_vwap == spec_zero(),
        blank.realized_pnl_cumulative == spec_zero() && blank.volume_usd == spec_zero(),
        blank.exchange_position_size == spec_zero() && blank.exchange_entry_vwap is None,
        blank.portfolio_value == spec_zero() && blank.available_capital == spec_zero(),
        blank.symbol@.len() == 0 && blank.updated_at@.len() == 0,
{
}

/// A file's path is the directory and the name with one slash between them: the directory's own where
/// it ends in one. In no directory, it is the name.
pub proof fn paths_have_one_slash_between(dir: Seq<char>, name: Seq<char>)
    ensures
        joined(Seq::empty(), name) == name,
        dir.len() > 0 && dir[dir.len() - 1] == '/' ==> joined(dir, name) == dir + name,
        dir.len() > 0 && dir[dir.len() - 1] != '/' ==> joined(dir, name) == dir.push('/') + name,
{
    reveal_strlit("/");
    assert("/"@ =~= seq!['/']);
    assert(dir + "/"@ =~= dir.push('/'));
}

} // verus!
