//! What the program is told from outside: arguments, credentials, and whether a configuration is
//! fit for live trading.
use vstd::prelude::*;
use crate::num::{spec_zero, Num};
use crate::orchestrator::hot::Mode;
use crate::text::{integer_value, parse_i32, parse_i64, same_text, trim, trimmed};

verus! {

/// The account and market that are traded.
#[derive(Clone, Debug)]
pub struct Credentials {
    pub api_key_private_key: String,
    pub api_key_index: i32,
    pub account_index: i64,
    pub wallet_address: String,
    pub market_symbol: String,
}

/// What the environment says; `None` where a variable is not set.
#[derive(Clone, Debug)]
pub struct EnvVars {
    pub api_key_private_key: Option<String>,
    pub api_key_index: Option<String>,
    pub account_index: Option<String>,
    pub wallet_address: Option<String>,
    pub market_symbol: Option<String>,
}

/// Why there are no credentials.
#[derive(Clone, Copy, Debug, PartialEq, Eq, Structural)]
pub enum CredentialsError {
    /// The key is not set.
    MissingKey,
    /// The index of the key is no number.
    ApiKeyIndex,
    /// The index of the account is no number.
    AccountIndex,
}

/// The number that a variable holds, white space aside: zero where it is not set.
pub open spec fn index_of(var: Option<String>) -> Option<int> {
    match var {
        Some(t) => integer_value(trimmed(t@)),
        None => Some(0),
    }
}

/// Whether a number fits an index of a key.
pub open spec fn key_index_of(var: Option<String>) -> Option<int> {
    match index_of(var) {
        Some(n) => if i32::MIN <= n <= i32::MAX {
            Some(n)
        } else {
            None
        },
        None => None,
    }
}

/// Whether a number fits an index of an account.
pub open spec fn account_index_of(var: Option<String>) -> Option<int> {
    match index_of(var) {
        Some(n) => if i64::MIN <= n <= i64::MAX {
            Some(n)
        } else {
            None
        },
        None => None,
    }
}

/// A text, or another where it is missing.
pub open spec fn text_or(text: Option<String>, other: Seq<char>) -> Seq<char> {
    match text {
        Some(t) => t@,
        None => other,
    }
}

impl Credentials {
    /// The credentials that the environment gives. The first fault is told: a missing key, then
    /// the index of the key, then that of the account.
    pub fn from_env(vars: EnvVars) -> (r: Result<Credentials, CredentialsError>)
        ensures
            match r {
                Ok(c) => {
                    &&& vars.api_key_private_key is Some
                    &&& c.api_key_private_key@ == vars.api_key_private_key->0@
                    &&& key_index_of(vars.api_key_index) == Some(c.api_key_index as int)
                    &&& account_index_of(vars.account_index) == Some(c.account_index as int)
                    &&& c.wallet_address@ == text_or(vars.wallet_address, Seq::empty())
                    &&& c.market_symbol@ == text_or(vars.market_symbol, "BTC"@)
                },
                Err(CredentialsError::MissingKey) => vars.api_key_private_key is None,
                Err(CredentialsError::ApiKeyIndex) => vars.api_key_private_key is Some
                    && key_index_of(vars.api_key_index) is None,
                Err(CredentialsError::AccountIndex) => vars.api_key_private_key is Some
                    && key_index_of(vars.api_key_index) is Some && account_index_of(
                    vars.account_index,
                ) is None,
            },
    {
        let api_key_private_key: String = match vars.api_key_private_key {
            Some(k) => k,
            None => {
                return Err(CredentialsError::MissingKey);
            },
        };
        let api_key_index: i32 = match vars.api_key_index {
            Some(t) => match parse_i32(trim(t.as_str())) {
                Some(n) => n,
                None => {
                    return Err(CredentialsError::ApiKeyIndex);
                },
            },
            None => 0,
        };
        let account_index: i64 = match vars.account_index {
            Some(t) => match parse_i64(trim(t.as_str())) {
                Some(n) => n,
                None => {
                    return Err(CredentialsError::AccountIndex);
                },
            },
            None => 0,
        };
        let wallet_address: String = match vars.wallet_address {
            Some(t) => t,
            None => {
                let none: String = String::new();
                proof {
                    assert(none@ =~= Seq::empty());
                }
                none
            },
        };
        let market_symbol: String = match vars.market_symbol {
            Some(t) => t,
            None => "BTC".to_owned(),
        };
        Ok(
            Credentials {
                api_key_private_key,
                api_key_index,
                account_index,
                wallet_address,
                market_symbol,
            },
        )
    }

    /// What a dry run goes on with where there are no credentials.
    pub fn none() -> (r: Credentials)
        ensures
            r.api_key_private_key@.len() == 0,
            r.api_key_index == 0,
            r.account_index == 0,
            r.wallet_address@.len() == 0,
            r.market_symbol@ == "BTC"@,
    {
        Credentials {
            api_key_private_key: String::new(),
            api_key_index: 0,
            account_index: 0,
            wallet_address: String::new(),
            market_symbol: "BTC".to_owned(),
        }
    }
}

/// What the arguments ask for.
#[derive(Clone, Debug)]
pub struct Arguments {
    pub symbol: Option<String>,
    pub config_path: String,
    pub mode: Mode,
    /// Arguments that are not known, in their order.
    pub unknown: Vec<String>,
    /// Whether the old name of the dry run was used.
    pub shadow: bool,
}

/// What the arguments ask for.
pub struct Asked {
    pub symbol: Option<Seq<char>>,
    pub config_path: Seq<char>,
    pub mode: Mode,
    pub unknown: Seq<Seq<char>>,
    pub shadow: bool,
}

/// A text, where there is one.
pub open spec fn text_at(args: Seq<String>, i: nat) -> Option<Seq<char>> {
    if i < args.len() {
        Some(args[i as int]@)
    } else {
        None
    }
}

/// What the arguments from the `i`-th on ask for on top of the given.
pub open spec fn asked(args: Seq<String>, i: nat, a: Asked) -> Asked
    decreases args.len() + 1 - i,
{
    if i >= args.len() {
        a
    } else if args[i as int]@ == "--symbol"@ {
        asked(args, i + 2, Asked { symbol: text_at(args, i + 1), ..a })
    } else if args[i as int]@ == "--config"@ {
        asked(
            args,
            i + 2,
            Asked {
                config_path: match text_at(args, i + 1) {
                    Some(p) => p,
                    None => a.config_path,
                },
                ..a
            },
        )
    } else if args[i as int]@ == "--dry-run"@ {
        asked(args, i + 1, Asked { mode: Mode::DryRun, ..a })
    } else if args[i as int]@ == "--shadow"@ {
        asked(args, i + 1, Asked { mode: Mode::DryRun, shadow: true, ..a })
    } else if args[i as int]@ == "--live"@ {
        asked(args, i + 1, Asked { mode: Mode::Live, ..a })
    } else {
        asked(args, i + 1, Asked { unknown: a.unknown.push(args[i as int]@), ..a })
    }
}

/// What no arguments ask for: a dry run on `config.json`.
pub open spec fn asked_nothing() -> Asked {
    Asked {
        symbol: None,
        config_path: "config.json"@,
        mode: Mode::DryRun,
        unknown: Seq::empty(),
        shadow: false,
    }
}

impl View for Arguments {
    type V = Asked;

    open spec fn view(&self) -> Asked {
        Asked {
            symbol: match self.symbol {
                Some(s) => Some(s@),
                None => None,
            },
            config_path: self.config_path@,
            mode: self.mode,
            unknown: crate::csv_text::cells(self.unknown@),
            shadow: self.shadow,
        }
    }
}

/// What the arguments ask for, the program's name aside.
pub fn parse_args(args: &Vec<String>) -> (r: Arguments)
    ensures
        r@ == asked(args@, 0, asked_nothing()),
{
    let mut a: Arguments = Arguments {
        symbol: None,
        config_path: "config.json".to_owned(),
        mode: Mode::DryRun,
        unknown: Vec::new(),
        shadow: false,
    };
    proof {
        assert(a@.unknown =~= Seq::empty());
    }
    let n: usize = args.len();
    let mut i: usize = 0;
    while i < n
        invariant
            i <= n == args@.len(),
            asked(args@, i as nat, a@) == asked(args@, 0, asked_nothing()),
        decreases n - i,
    {
        let arg: &str = args[i].as_str();
        let ghost before = a@;
        if same_text(arg, "--symbol") {
            if i + 1 < n {
                a.symbol = Some(args[i + 1].clone());
                i = i + 2;
            } else {
                a.symbol = None;
                proof {
                    assert(asked(args@, i as nat, before) == asked(args@, i as nat + 2, a@));
                }
                i = n;
            }
        } else if same_text(arg, "--config") {
            if i + 1 < n {
                a.config_path = args[i + 1].clone();
                i = i + 2;
            } else {
                proof {
                    assert(asked(args@, i as nat, before) == asked(args@, i as nat + 2, a@));
                }
                i = n;
            }
        } else if same_text(arg, "--dry-run") {
            a.mode = Mode::DryRun;
            i = i + 1;
        } else if same_text(arg, "--shadow") {
            a.mode = Mode::DryRun;
            a.shadow = true;
            i = i + 1;
        } else if same_text(arg, "--live") {
            a.mode = Mode::Live;
            i = i + 1;
        } else {
            let text: String = args[i].clone();
            proof {
                crate::csv_text::cells_push(a.unknown@, text);
            }
            a.unknown.push(text);
            i = i + 1;
        }
    }
    a
}

/// What the program goes on with.
#[derive(Clone, Copy, Debug, PartialEq, Eq, Structural)]
pub enum ConfigChoice {
    /// The configuration that was read.
    Loaded,
    /// The built-in defaults.
    Defaults,
    /// Nothing: it stops.
    Stop,
}

/// Which settings a run goes by.
pub open spec fn chosen(loaded: bool, mode: Mode, file_exists: bool) -> ConfigChoice {
    if loaded {
        ConfigChoice::Loaded
    } else if mode == Mode::Live || file_exists {
        ConfigChoice::Stop
    } else {
        ConfigChoice::Defaults
    }
}

/// What the program goes on with: a configuration that cannot be read stops it, unless it is a
/// dry run and the file is missing.
pub fn choose_config(loaded: bool, mode: Mode, file_exists: bool) -> (r: ConfigChoice)
    ensures
        r == if loaded {
            ConfigChoice::Loaded
        } else if mode == Mode::Live || file_exists {
            ConfigChoice::Stop
        } else {
            ConfigChoice::Defaults
        },
        r == chosen(loaded, mode, file_exists),
{
    if loaded {
        ConfigChoice::Loaded
    } else if mode == Mode::Live || file_exists {
        ConfigChoice::Stop
    } else {
        ConfigChoice::Defaults
    }
}

/// Why a configuration is not fit for live trading.
#[derive(Clone, Copy, Debug, PartialEq, Eq, Structural)]
pub enum LiveConfigError {
    /// The leverage is below one.
    Leverage,
    /// No level is quoted.
    Levels,
    /// No share of the capital is used.
    Sizing,
    /// Quotes would have no spread.
    Spread,
}

/// What is wrong with settings for live trading, where anything is.
pub open spec fn live_verdict(
    leverage: i32,
    levels_per_side: usize,
    capital_usage_percent: Num,
    min_half_spread_bps: Num,
) -> Result<(), LiveConfigError> {
    if leverage < 1 {
        Err(LiveConfigError::Leverage)
    } else if levels_per_side == 0 {
        Err(LiveConfigError::Levels)
    } else if !spec_zero().below(capital_usage_percent) {
        Err(LiveConfigError::Sizing)
    } else if !spec_zero().below(min_half_spread_bps) {
        Err(LiveConfigError::Spread)
    } else {
        Ok(())
    }
}

/// Whether a configuration is fit for live trading: one that fell back to zeros is not. The first
/// fault is told.
pub fn validate_live(
    leverage: i32,
    levels_per_side: usize,
    capital_usage_percent: Num,
    min_half_spread_bps: Num,
) -> (r: Result<(), LiveConfigError>)
    ensures
        r == if leverage < 1 {
            Err::<(), LiveConfigError>(LiveConfigError::Leverage)
        } else if levels_per_side == 0 {
            Err(LiveConfigError::Levels)
        } else if !spec_zero().below(capital_usage_percent) {
            Err(LiveConfigError::Sizing)
        } else if !spec_zero().below(min_half_spread_bps) {
            Err(LiveConfigError::Spread)
        } else {
            Ok(())
        },
        r == live_verdict(leverage, levels_per_side, capital_usage_percent, min_half_spread_bps),
{
    if leverage < 1 {
        Err(LiveConfigError::Leverage)
    } else if levels_per_side == 0 {
        Err(LiveConfigError::Levels)
    } else if !capital_usage_percent.is_positive() {
        Err(LiveConfigError::Sizing)
    } else if !min_half_spread_bps.is_positive() {
        Err(LiveConfigError::Spread)
    } else {
        Ok(())
    }
}

/// Live trading is only ever asked for in so many words: without the argument for it, the mode is
/// what it was, or a dry run.
pub proof fn live_trading_is_asked_for(args: Seq<String>, i: nat, a: Asked)
    requires
        forall|k: int| i <= k < args.len() ==> (#[trigger] args[k])@ != "--live"@,
    ensures
        asked(args, i, a).mode == a.mode || asked(args, i, a).mode == Mode::DryRun,
    decreases args.len() + 1 - i,
{
    if i < args.len() {
        if args[i as int]@ == "--symbol"@ {
            live_trading_is_asked_for(
                args,
                i + 2,
                Asked { symbol: text_at(args, i + 1), ..a },
            );
        } else if args[i as int]@ == "--config"@ {
            live_trading_is_asked_for(
                args,
                i + 2,
                Asked {
                    config_path: match text_at(args, i + 1) {
                        Some(p) => p,
                        None => a.config_path,
                    },
                    ..a
                },
            );
        } else if args[i as int]@ == "--dry-run"@ {
            live_trading_is_asked_for(args, i + 1, Asked { mode: Mode::DryRun, ..a });
        } else if args[i as int]@ == "--shadow"@ {
            live_trading_is_asked_for(
                args,
                i + 1,
                Asked { mode: Mode::DryRun, shadow: true, ..a },
            );
        } else if args[i as int]@ == "--live"@ {
            assert(false);
        } else {
            live_trading_is_asked_for(
                args,
                i + 1,
                Asked { unknown: a.unknown.push(args[i as int]@), ..a },
            );
        }
    }
}

/// No arguments ask for a dry run on `config.json`, without a symbol. An index that is not set is
/// zero; one that is set is the integer in it, white space aside, where that fits.
pub proof fn what_is_not_said_has_its_default(var: Option<String>)
    ensures
        ({
            let a = asked_nothing();
            &&& a.symbol is None && a.config_path == "config.json"@ && a.mode == Mode::DryRun
                && a.unknown.len() == 0 && !a.shadow
        }),
        var is None ==> key_index_of(var) == Some(0int) && account_index_of(var) == Some(0int),
        var is Some ==> ({
            let n = integer_value(trimmed(var->0@));
            &&& n is None ==> key_index_of(var) is None && account_index_of(var) is None
            &&& n is Some ==> (key_index_of(var) is Some <==> -0x8000_0000 <= n->0 <= 0x7FFF_FFFF)
            &&& n is Some && key_index_of(var) is Some ==> key_index_of(var) == n
            &&& n is Some ==> (account_index_of(var) is Some <==> i64::MIN <= n->0 <= i64::MAX)
            &&& n is Some && account_index_of(var) is Some ==> account_index_of(var) == n
        }),
{
}

/// Whether an argument takes the one after it as its value.
pub open spec fn takes_value(w: Seq<char>) -> bool {
    w == "--symbol"@ || w == "--config"@
}

/// Whether an argument names a mode.
pub open spec fn names_mode(w: Seq<char>) -> bool {
    w == "--dry-run"@ || w == "--shadow"@ || w == "--live"@
}

proof fn lemma_words_differ()
    ensures
        "--live"@ != "--dry-run"@,
        "--live"@ != "--shadow"@,
        "--live"@ != "--symbol"@,
        "--live"@ != "--config"@,
        "--shadow"@ != "--dry-run"@,
        "--shadow"@ != "--symbol"@,
        "--shadow"@ != "--config"@,
        "--dry-run"@ != "--symbol"@,
        "--dry-run"@ != "--config"@,
        "--symbol"@ != "--config"@,
{
    reveal_strlit("--live");
    reveal_strlit("--dry-run");
    reveal_strlit("--shadow");
    reveal_strlit("--symbol");
    reveal_strlit("--config");
    assert("--live"@[2] == 'l' && "--dry-run"@[2] == 'd' && "--shadow"@[2] == 's'
        && "--symbol"@[2] == 's' && "--config"@[2] == 'c');
    assert("--shadow"@[3] == 'h' && "--symbol"@[3] == 'y');
}

proof fn lemma_untouched(args: Seq<String>, i: nat, a: Asked)
    ensures
        (forall|k: int| i <= k < args.len() ==> !names_mode((#[trigger] args[k])@)) ==> asked(
            args,
            i,
            a,
        ).mode == a.mode,
        (forall|k: int| i <= k < args.len() ==> (#[trigger] args[k])@ != "--shadow"@) ==> asked(
            args,
            i,
            a,
        ).shadow == a.shadow,
        (forall|k: int| i <= k < args.len() ==> (#[trigger] args[k])@ != "--symbol"@) ==> asked(
            args,
            i,
            a,
        ).symbol == a.symbol,
        (forall|k: int| i <= k < args.len() ==> (#[trigger] args[k])@ != "--config"@) ==> asked(
            args,
            i,
            a,
        ).config_path == a.config_path,
    decreases args.len() + 1 - i,
{
    lemma_words_differ();
    if i < args.len() {
        if args[i as int]@ == "--symbol"@ {
            lemma_untouched(args, i + 2, Asked { symbol: text_at(args, i + 1), ..a });
        } else if args[i as int]@ == "--config"@ {
            lemma_untouched(
                args,
                i + 2,
                Asked {
                    config_path: match text_at(args, i + 1) {
                        Some(p) => p,
                        None => a.config_path,
                    },
                    ..a
                },
            );
        } else if args[i as int]@ == "--dry-run"@ {
            lemma_untouched(args, i + 1, Asked { mode: Mode::DryRun, ..a });
        } else if args[i as int]@ == "--shadow"@ {
            lemma_untouched(args, i + 1, Asked { mode: Mode::DryRun, shadow: true, ..a });
        } else if args[i as int]@ == "--live"@ {
            lemma_untouched(args, i + 1, Asked { mode: Mode::Live, ..a });
        } else {
            lemma_untouched(
                args,
                i + 1,
                Asked { unknown: a.unknown.push(args[i as int]@), ..a },
            );
        }
    }
}

/// The last word on a matter counts: the last argument that names a mode decides the mode, and
/// `--symbol` and `--config` take the argument after them, wherever no later one speaks of the same.
pub proof fn the_last_word_counts(args: Seq<String>, i: nat, a: Asked, k: int)
    requires
        i <= k < args.len(),
        forall|j: int| i <= j < k ==> !takes_value((#[trigger] args[j])@),
    ensures
        ({
            let r = asked(args, i, a);
            let w = args[k]@;
            &&& (forall|j: int| k < j < args.len() ==> !names_mode((#[trigger] args[j])@)) ==> {
                &&& w == "--live"@ ==> r.mode == Mode::Live
                &&& w == "--dry-run"@ || w == "--shadow"@ ==> r.mode == Mode::DryRun
            }
            &&& (forall|j: int| k < j < args.len() ==> (#[trigger] args[j])@ != "--shadow"@) && w
                == "--shadow"@ ==> r.shadow
            &&& (forall|j: int| k + 1 < j < args.len() ==> (#[trigger] args[j])@ != "--symbol"@)
                && w == "--symbol"@ ==> {
                &&& k + 1 < args.len() ==> r.symbol == Some(args[k + 1]@)
                &&& k + 1 == args.len() ==> r.symbol is None
            }
            &&& (forall|j: int| k + 1 < j < args.len() ==> (#[trigger] args[j])@ != "--config"@)
                && w == "--config"@ && k + 1 < args.len() ==> r.config_path == args[k + 1]@
        }),
    decreases k - i,
{
    lemma_words_differ();
    if i < k {
        assert(!takes_value(args[i as int]@));
        if args[i as int]@ == "--dry-run"@ {
            the_last_word_counts(args, i + 1, Asked { mode: Mode::DryRun, ..a }, k);
        } else if args[i as int]@ == "--shadow"@ {
            the_last_word_counts(args, i + 1, Asked { mode: Mode::DryRun, shadow: true, ..a }, k);
        } else if args[i as int]@ == "--live"@ {
            the_last_word_counts(args, i + 1, Asked { mode: Mode::Live, ..a }, k);
        } else {
            the_last_word_counts(
                args,
                i + 1,
                Asked { unknown: a.unknown.push(args[i as int]@), ..a },
                k,
            );
        }
    } else if args[k]@ == "--symbol"@ {
        lemma_untouched(args, i + 2, Asked { symbol: text_at(args, i + 1), ..a });
    } else if args[k]@ == "--config"@ {
        lemma_untouched(
            args,
            i + 2,
            Asked {
                config_path: match text_at(args, i + 1) {
                    Some(p) => p,
                    None => a.config_path,
                },
                ..a
            },
        );
    } else if args[k]@ == "--dry-run"@ {
        lemma_untouched(args, i + 1, Asked { mode: Mode::DryRun, ..a });
    } else if args[k]@ == "--shadow"@ {
        lemma_untouched(args, i + 1, Asked { mode: Mode::DryRun, shadow: true, ..a });
    } else if args[k]@ == "--live"@ {
        lemma_untouched(args, i + 1, Asked { mode: Mode::Live, ..a });
    }
}

/// Arguments that mean nothing are remembered, all of them and in order, and ask for nothing.
pub proof fn strange_words_are_remembered(args: Seq<String>, i: nat, a: Asked)
    requires
        i <= args.len(),
        forall|j: int|
            i <= j < args.len() ==> !takes_value((#[trigger] args[j])@) && !names_mode(args[j]@),
    ensures
        ({
            let r = asked(args, i, a);
            &&& r.unknown.len() == a.unknown.len() + args.len() - i
            &&& forall|j: int| 0 <= j < a.unknown.len() ==> #[trigger] r.unknown[j] == a.unknown[j]
            &&& forall|j: int|
                i <= j < args.len() ==> r.unknown[a.unknown.len() + j - i] == (#[trigger] args[j])@
            &&& r.mode == a.mode && r.symbol == a.symbol && r.config_path == a.config_path
                && r.shadow == a.shadow
        }),
    decreases args.len() - i,
{
    if i < args.len() {
        assert(!takes_value(args[i as int]@) && !names_mode(args[i as int]@));
        let b = Asked { unknown: a.unknown.push(args[i as int]@), ..a };
        strange_words_are_remembered(args, i + 1, b);
        let r = asked(args, i, a);
        assert forall|j: int| 0 <= j < a.unknown.len() implies #[trigger] r.unknown[j]
            == a.unknown[j] by {
            assert(r.unknown[j] == b.unknown[j]);
        }
        assert(r.unknown[a.unknown.len() as int] == b.unknown[a.unknown.len() as int]);
    }
}

/// Settings that were not loaded are never traded live with, nor stood in for where a file is there:
/// the defaults are for a dry run without one.
pub proof fn defaults_are_for_dry_runs(loaded: bool, mode: Mode, file_exists: bool)
    ensures
        chosen(loaded, mode, file_exists) == ConfigChoice::Loaded <==> loaded,
        chosen(loaded, mode, file_exists) == ConfigChoice::Defaults <==> !loaded && mode
            == Mode::DryRun && !file_exists,
{
}

/// Live trading takes a leverage of one at least, a level at least, and a positive share of capital
/// and half spread; what is missing first is what is said.
pub proof fn live_settings_are_checked(
    leverage: i32,
    levels: usize,
    usage: Num,
    spread: Num,
)
    ensures
        ({
            let r = live_verdict(leverage, levels, usage, spread);
            &&& r is Ok <==> leverage >= 1 && levels >= 1 && spec_zero().below(usage)
                && spec_zero().below(spread)
            &&& leverage < 1 ==> r == Err::<(), LiveConfigError>(LiveConfigError::Leverage)
            &&& leverage >= 1 && levels == 0 ==> r == Err::<(), LiveConfigError>(
                LiveConfigError::Levels,
            )
            &&& leverage >= 1 && levels >= 1 && !spec_zero().below(usage) ==> r == Err::<
                (),
                LiveConfigError,
            >(LiveConfigError::Sizing)
            &&& leverage >= 1 && levels >= 1 && spec_zero().below(usage) && !spec_zero().below(
                spread,
            ) ==> r == Err::<(), LiveConfigError>(LiveConfigError::Spread)
        }),
{
}

} // verus!
