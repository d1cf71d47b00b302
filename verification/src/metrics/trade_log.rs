//! Append-only log of fills: how a fill becomes a row, what waits to be written, and what an
//! existing log needs before it is appended to.
use vstd::prelude::*;
use vstd::string::StringExecFns;
use crate::account::persistence::{join_path, joined};
use crate::csv_text::{
    cells, cells_push, csv_line, csv_lines, csv_table, decode_table, encode_row, encode_rows, lines_split,
    reads_back, table, table_push,
};
use crate::num::{spec_zero, Num};
use crate::text::{chars_of, same_text, signed_decimal, signed_text};
use crate::timestamps::{is_stamp, utc_now};

verus! {

/// Number of columns.
pub const COLUMNS: usize = 21;

/// The columns.
pub open spec fn header() -> Seq<Seq<char>> {
    seq![
        "timestamp"@,
        "symbol"@,
        "side"@,
        "price"@,
        "size"@,
        "level"@,
        "position_after"@,
        "realized_pnl"@,
        "available_capital"@,
        "portfolio_value"@,
        "simulated"@,
        "notional_usd"@,
        "fee_usd"@,
        "entry_vwap_after"@,
        "realized_pnl_cumulative"@,
        "mid_at_fill"@,
        "spread_capture_bps"@,
        "inventory_after_usd"@,
        "client_order_index"@,
        "exchange_order_index"@,
        "fill_source"@,
    ]
}

/// The columns.
pub fn header_row() -> (r: Vec<String>)
    ensures
        cells(r@) == header(),
{
    let mut r: Vec<String> = Vec::new();
    r.push("timestamp".to_owned());
    r.push("symbol".to_owned());
    r.push("side".to_owned());
    r.push("price".to_owned());
    r.push("size".to_owned());
    r.push("level".to_owned());
    r.push("position_after".to_owned());
    r.push("realized_pnl".to_owned());
    r.push("available_capital".to_owned());
    r.push("portfolio_value".to_owned());
    r.push("simulated".to_owned());
    r.push("notional_usd".to_owned());
    r.push("fee_usd".to_owned());
    r.push("entry_vwap_after".to_owned());
    r.push("realized_pnl_cumulative".to_owned());
    r.push("mid_at_fill".to_owned());
    r.push("spread_capture_bps".to_owned());
    r.push("inventory_after_usd".to_owned());
    r.push("client_order_index".to_owned());
    r.push("exchange_order_index".to_owned());
    r.push("fill_source".to_owned());
    proof {
        assert(cells(r@) =~= header());
    }
    r
}

/// One fill to be logged.
#[derive(Clone, Debug)]
pub struct TradeRow {
    /// When the fill happened. The logger stamps the current time where it is missing.
    pub timestamp: Option<String>,
    pub side: String,
    pub price: Num,
    pub size: Num,
    pub level: i64,
    pub position_after: Num,
    pub realized_pnl: Num,
    pub available_capital: Num,
    pub portfolio_value: Num,
    pub simulated: bool,
    /// The traded value: price times size where it is missing.
    pub notional_usd: Option<Num>,
    pub fee_usd: Option<Num>,
    pub entry_vwap_after: Option<Num>,
    pub realized_pnl_cumulative: Option<Num>,
    pub mid_at_fill: Option<Num>,
    pub spread_capture_bps: Option<Num>,
    pub inventory_after_usd: Option<Num>,
    pub client_order_index: Option<String>,
    pub exchange_order_index: Option<String>,
    pub fill_source: String,
}

/// The numbers of a row in print. A text whose number is missing is not read.
#[derive(Clone, Debug)]
pub struct RowTexts {
    /// Ten significant digits.
    pub price: String,
    /// Six decimals.
    pub size: String,
    /// Six decimals.
    pub position_after: String,
    /// Four decimals.
    pub realized_pnl: String,
    /// Two decimals.
    pub available_capital: String,
    /// Two decimals.
    pub portfolio_value: String,
    /// Six decimals.
    pub notional_usd: String,
    /// Eight decimals.
    pub fee_usd: String,
    /// Ten significant digits.
    pub entry_vwap_after: String,
    /// Six decimals.
    pub realized_pnl_cumulative: String,
    /// Ten significant digits.
    pub mid_at_fill: String,
    /// Four decimals.
    pub spread_capture_bps: String,
    /// Six decimals.
    pub inventory_after_usd: String,
}

/// The traded value of a row: as given, or price times size, which is handed in.
pub fn notional(row: &TradeRow, product: Num) -> (r: Num)
    ensures
        r == match row.notional_usd {
            Some(n) => n,
            None => product,
        },
{
    match row.notional_usd {
        Some(n) => n,
        None => product,
    }
}

/// The text of a number, where there is one.
pub open spec fn printed_if(number: Option<Num>, text: Seq<char>) -> Seq<char> {
    match number {
        Some(_) => text,
        None => Seq::empty(),
    }
}

/// A text, where there is one.
pub open spec fn text_or_empty(text: Option<String>) -> Seq<char> {
    match text {
        Some(t) => t@,
        None => Seq::empty(),
    }
}

/// The cells of a fill.
pub open spec fn row_cells(
    symbol: Seq<char>,
    row: TradeRow,
    texts: RowTexts,
    stamp: Seq<char>,
) -> Seq<Seq<char>> {
    seq![
        match row.timestamp {
            Some(t) => t@,
            None => stamp,
        },
        symbol,
        row.side@,
        texts.price@,
        texts.size@,
        signed_decimal(row.level as int),
        texts.position_after@,
        texts.realized_pnl@,
        texts.available_capital@,
        texts.portfolio_value@,
        if row.simulated {
            "true"@
        } else {
            "false"@
        },
        texts.notional_usd@,
        printed_if(row.fee_usd, texts.fee_usd@),
        printed_if(row.entry_vwap_after, texts.entry_vwap_after@),
        printed_if(row.realized_pnl_cumulative, texts.realized_pnl_cumulative@),
        printed_if(row.mid_at_fill, texts.mid_at_fill@),
        printed_if(row.spread_capture_bps, texts.spread_capture_bps@),
        printed_if(row.inventory_after_usd, texts.inventory_after_usd@),
        text_or_empty(row.client_order_index),
        text_or_empty(row.exchange_order_index),
        row.fill_source@,
    ]
}

/// The text of a number, where there is one.
pub fn opt(number: Option<Num>, text: &String) -> (r: String)
    ensures
        r@ == printed_if(number, text@),
{
    match number {
        Some(_) => text.clone(),
        None => {
            let r: String = String::new();
            proof {
                assert(r@ =~= Seq::empty());
            }
            r
        },
    }
}

fn opt_text(text: &Option<String>) -> (r: String)
    ensures
        r@ == text_or_empty(*text),
{
    match text {
        Some(t) => t.clone(),
        None => {
            let r: String = String::new();
            proof {
                assert(r@ =~= Seq::empty());
            }
            r
        },
    }
}

/// The cells of a fill; the stamp stands in where the fill has no time of its own.
pub fn format_row(symbol: &str, row: &TradeRow, texts: &RowTexts, stamp: &str) -> (r: Vec<String>)
    ensures
        cells(r@) == row_cells(symbol@, *row, *texts, stamp@),
        r@.len() == COLUMNS,
{
    let mut r: Vec<String> = Vec::new();
    r.push(
        match &row.timestamp {
            Some(t) => t.clone(),
            None => stamp.to_owned(),
        },
    );
    r.push(symbol.to_owned());
    r.push(row.side.clone());
    r.push(texts.price.clone());
    r.push(texts.size.clone());
    r.push(signed_text(row.level));
    r.push(texts.position_after.clone());
    r.push(texts.realized_pnl.clone());
    r.push(texts.available_capital.clone());
    r.push(texts.portfolio_value.clone());
    r.push(if row.simulated { "true".to_owned() } else { "false".to_owned() });
    r.push(texts.notional_usd.clone());
    r.push(opt(row.fee_usd, &texts.fee_usd));
    r.push(opt(row.entry_vwap_after, &texts.entry_vwap_after));
    r.push(opt(row.realized_pnl_cumulative, &texts.realized_pnl_cumulative));
    r.push(opt(row.mid_at_fill, &texts.mid_at_fill));
    r.push(opt(row.spread_capture_bps, &texts.spread_capture_bps));
    r.push(opt(row.inventory_after_usd, &texts.inventory_after_usd));
    r.push(opt_text(&row.client_order_index));
    r.push(opt_text(&row.exchange_order_index));
    r.push(row.fill_source.clone());
    proof {
        assert(cells(r@) =~= row_cells(symbol@, *row, *texts, stamp@));
    }
    r
}

/// What is to be done with an existing log before it is appended to.
#[derive(Debug)]
pub enum HeaderPlan {
    /// Nothing: it has the columns.
    Keep,
    /// It is replaced by these bytes.
    Replace(Vec<u8>),
    /// It cannot be read.
    Unreadable,
    /// A row has more cells than there are columns, which cannot be written.
    TooWide,
}

/// A row with empty cells behind it up to the number of columns.
pub open spec fn padded(row: Seq<Seq<char>>) -> Seq<Seq<char>> {
    if row.len() < COLUMNS {
        row + Seq::new((COLUMNS - row.len()) as nat, |i: int| Seq::<char>::empty())
    } else {
        row
    }
}

/// Rows with empty cells behind each up to the number of columns.
pub open spec fn all_padded(rows: Seq<Seq<Seq<char>>>) -> Seq<Seq<Seq<char>>> {
    Seq::new(rows.len(), |i: int| padded(rows[i]))
}

/// Whether a row has more cells than there are columns.
pub open spec fn some_too_wide(rows: Seq<Seq<Seq<char>>>) -> bool {
    exists|i: int| 0 <= i < rows.len() && (#[trigger] rows[i]).len() > COLUMNS
}

fn same_cells(a: &Vec<String>, b: &Vec<String>) -> (r: bool)
    ensures
        r == (cells(a@) == cells(b@)),
{
    if a.len() != b.len() {
        proof {
            assert(cells(a@).len() != cells(b@).len());
        }
        return false;
    }
    let mut i: usize = 0;
    while i < a.len()
        invariant
            i <= a@.len() == b@.len(),
            forall|k: int| 0 <= k < i ==> #[trigger] cells(a@)[k] == cells(b@)[k],
        decreases a@.len() - i,
    {
        if !same_text(a[i].as_str(), b[i].as_str()) {
            proof {
                assert(cells(a@)[i as int] != cells(b@)[i as int]);
            }
            return false;
        }
        i = i + 1;
    }
    proof {
        assert(cells(a@) =~= cells(b@));
    }
    true
}

fn pad_row(row: &Vec<String>) -> (r: Vec<String>)
    ensures
        cells(r@) == padded(cells(row@)),
{
    let mut r: Vec<String> = Vec::new();
    let mut i: usize = 0;
    while i < row.len()
        invariant
            i <= row@.len(),
            cells(r@) == cells(row@).take(i as int),
        decreases row@.len() - i,
    {
        let ghost before = r@;
        let cell: String = row[i].clone();
        proof {
            cells_push(before, cell);
            assert(cells(row@).take(i as int).push(cells(row@)[i as int]) =~= cells(row@).take(
                i + 1,
            ));
        }
        r.push(cell);
        i = i + 1;
    }
    let ghost whole = cells(row@);
    proof {
        assert(whole.take(i as int) =~= whole);
        assert(whole + Seq::new(0, |i: int| Seq::<char>::empty()) =~= whole);
    }
    while r.len() < COLUMNS
        invariant
            r@.len() >= whole.len(),
            r@.len() <= COLUMNS || r@.len() == whole.len(),
            cells(r@) == whole + Seq::new(
                (r@.len() - whole.len()) as nat,
                |i: int| Seq::<char>::empty(),
            ),
        decreases COLUMNS - r@.len(),
    {
        let empty: String = String::new();
        proof {
            assert(empty@ =~= Seq::empty());
        }
        let ghost before = r@;
        r.push(empty);
        proof {
            cells_push(before, empty);
            assert(cells(r@).len() == r@.len());
            assert(cells(r@) =~= whole + Seq::new(
                (r@.len() - whole.len()) as nat,
                |i: int| Seq::<char>::empty(),
            ));
        }
    }
    proof {
        assert(cells(r@) =~= padded(whole));
    }
    r
}

/// What is to be done with a log that was read, given its table.
pub open spec fn planned(rows: Seq<Seq<Seq<char>>>, plan: HeaderPlan) -> bool {
    if rows.len() > 0 && rows[0] == header() {
        plan is Keep
    } else if rows.len() > 0 && rows[0].len() > 0 {
        if some_too_wide(rows.drop_first()) {
            plan is TooWide
        } else {
            plan is Replace && plan->Replace_0@ == csv_line(header()) + csv_lines(
                all_padded(rows.drop_first()),
            )
        }
    } else {
        plan is Replace && plan->Replace_0@ == csv_line(header())
    }
}

/// What is to be done with a log that holds these rows: one whose first row is not the columns
/// gets them in its place, and its rows are filled up.
pub fn plan_for_rows(rows: &Vec<Vec<String>>) -> (r: HeaderPlan)
    ensures
        planned(table(rows@), r),
{
    let head: Vec<String> = header_row();
    let ghost t = table(rows@);
    if rows.len() == 0 || rows[0].len() == 0 {
        proof {
            if rows@.len() > 0 {
                assert(t[0].len() == 0);
                assert(header().len() == COLUMNS);
            }
        }
        return HeaderPlan::Replace(encode_row(&head));
    }
    if same_cells(&rows[0], &head) {
        return HeaderPlan::Keep;
    }
    let ghost rest = t.drop_first();
    let mut out: Vec<Vec<String>> = Vec::new();
    let mut i: usize = 1;
    while i < rows.len()
        invariant
            1 <= i <= rows@.len(),
            t == table(rows@),
            rest == t.drop_first(),
            t[0] != header(),
            t[0].len() > 0,
            table(out@) == all_padded(rest.take(i - 1)),
            forall|k: int| 0 <= k < i - 1 ==> (#[trigger] rest[k]).len() <= COLUMNS,
        decreases rows@.len() - i,
    {
        if rows[i].len() > COLUMNS {
            proof {
                assert(rest[i - 1].len() > COLUMNS);
            }
            return HeaderPlan::TooWide;
        }
        let ghost before = out@;
        let row: Vec<String> = pad_row(&rows[i]);
        proof {
            table_push(before, row);
            assert(rest[i - 1] == cells(rows@[i as int]@));
        }
        out.push(row);
        proof {
            assert(rest.take(i as int) =~= rest.take(i - 1).push(rest[i - 1]));
            assert(all_padded(rest.take(i as int)) =~= all_padded(rest.take(i - 1)).push(
                padded(rest[i - 1]),
            ));
            assert(table(out@) =~= all_padded(rest.take(i as int)));
        }
        i = i + 1;
    }
    let mut bytes: Vec<u8> = encode_row(&head);
    let mut lines: Vec<u8> = encode_rows(&out);
    bytes.append(&mut lines);
    proof {
        assert(rest.take(i - 1) =~= rest);
    }
    HeaderPlan::Replace(bytes)
}

/// What is to be done with a log of these bytes; none at all where it is missing.
pub fn ensure_header(existing: &Vec<u8>) -> (r: HeaderPlan)
    ensures
        existing@.len() == 0 ==> planned(Seq::empty(), r),
        existing@.len() > 0 ==> match csv_table(existing@) {
            Some(t) => planned(t, r),
            None => r is Unreadable,
        },
        forall|rows: Seq<Seq<Seq<char>>>|
            reads_back(rows) && existing@.len() > 0 && existing@ == #[trigger] csv_lines(rows)
                ==> planned(rows, r),
{
    if existing.len() == 0 {
        let none: Vec<Vec<String>> = Vec::new();
        proof {
            assert(table(none@) =~= Seq::empty());
        }
        return plan_for_rows(&none);
    }
    match decode_table(existing) {
        Some(rows) => plan_for_rows(&rows),
        None => HeaderPlan::Unreadable,
    }
}

/// Buffered log of the fills of a market.
#[derive(Debug)]
pub struct TradeLogger {
    path: String,
    symbol: String,
    buffer: Vec<Vec<String>>,
}

impl TradeLogger {
    /// The file.
    pub closed spec fn spec_path(&self) -> Seq<char> {
        self.path@
    }

    /// The symbol.
    pub closed spec fn spec_symbol(&self) -> Seq<char> {
        self.symbol@
    }

    /// The rows that wait to be written.
    pub closed spec fn waiting(&self) -> Seq<Seq<Seq<char>>> {
        table(self.buffer@)
    }

    /// Every row that waits has a cell for each column.
    pub open spec fn wf(&self) -> bool {
        forall|i: int| 0 <= i < self.waiting().len() ==> (#[trigger] self.waiting()[i]).len()
            == COLUMNS
    }

    /// The log of a market, in a directory.
    pub fn new(log_dir: &str, symbol: &str) -> (r: TradeLogger)
        ensures
            r.wf(),
            r.spec_path() == joined(log_dir@, "trades_"@ + symbol@ + ".csv"@),
            r.spec_symbol() == symbol@,
            r.waiting() == Seq::<Seq<Seq<char>>>::empty(),
    {
        let name: String = "trades_".to_owned().concat(symbol).concat(".csv");
        let r: TradeLogger = TradeLogger {
            path: join_path(log_dir, name.as_str()),
            symbol: symbol.to_owned(),
            buffer: Vec::new(),
        };
        proof {
            assert(r.waiting() =~= Seq::empty());
        }
        r
    }

    /// The file.
    pub fn path(&self) -> (r: &str)
        ensures
            r@ == self.spec_path(),
    {
        self.path.as_str()
    }

    /// The symbol.
    pub fn symbol(&self) -> (r: &str)
        ensures
            r@ == self.spec_symbol(),
    {
        self.symbol.as_str()
    }

    /// Buffers a fill, stamped with the given time where it has none.
    pub fn log_fill_at(&mut self, row: &TradeRow, texts: &RowTexts, stamp: &str)
        requires
            old(self).wf(),
        ensures
            final(self).wf(),
            final(self).spec_path() == old(self).spec_path(),
            final(self).spec_symbol() == old(self).spec_symbol(),
            final(self).waiting() == old(self).waiting().push(
                row_cells(old(self).spec_symbol(), *row, *texts, stamp@),
            ),
    {
        let formatted: Vec<String> = format_row(self.symbol.as_str(), row, texts, stamp);
        let ghost before = self.buffer@;
        proof {
            table_push(before, formatted);
            assert(cells(formatted@).len() == COLUMNS);
        }
        self.buffer.push(formatted);
        proof {
            assert forall|i: int| 0 <= i < self.waiting().len() implies (
            #[trigger] self.waiting()[i]).len() == COLUMNS by {
                if i < before.len() {
                    assert(self.waiting()[i] == old(self).waiting()[i]);
                }
            }
        }
    }

    /// Buffers a fill, stamped with the current time where it has none.
    pub fn log_fill(&mut self, row: &TradeRow, texts: &RowTexts)
        requires
            old(self).wf(),
        ensures
            final(self).wf(),
            final(self).spec_path() == old(self).spec_path(),
            final(self).spec_symbol() == old(self).spec_symbol(),
            exists|stamp: Seq<char>|
                is_stamp(stamp) && final(self).waiting() == old(self).waiting().push(
                    #[trigger] row_cells(old(self).spec_symbol(), *row, *texts, stamp),
                ),
    {
        let stamp: String = utc_now();
        self.log_fill_at(row, texts, stamp.as_str());
    }

    /// Takes the rows that wait, with the bytes to append to the file; nothing where none waits.
    pub fn flush(&mut self) -> (r: Option<(Vec<Vec<String>>, Vec<u8>)>)
        requires
            old(self).wf(),
        ensures
            final(self).wf(),
            final(self).spec_path() == old(self).spec_path(),
            final(self).spec_symbol() == old(self).spec_symbol(),
            final(self).waiting() == Seq::<Seq<Seq<char>>>::empty(),
            match r {
                Some((rows, bytes)) => {
                    &&& old(self).waiting().len() > 0
                    &&& table(rows@) == old(self).waiting()
                    &&& bytes@ == csv_lines(old(self).waiting())
                },
                None => old(self).waiting().len() == 0,
            },
    {
        if self.buffer.len() == 0 {
            proof {
                assert(self.waiting() =~= Seq::empty());
            }
            return None;
        }
        let mut rows: Vec<Vec<String>> = Vec::new();
        std::mem::swap(&mut rows, &mut self.buffer);
        proof {
            assert(self.waiting() =~= Seq::empty());
        }
        let bytes: Vec<u8> = encode_rows(&rows);
        Some((rows, bytes))
    }

    /// Puts rows that could not be written back in front of those that wait.
    pub fn put_back(&mut self, rows: Vec<Vec<String>>)
        requires
            old(self).wf(),
            forall|i: int| 0 <= i < rows@.len() ==> (#[trigger] rows@[i])@.len() == COLUMNS,
        ensures
            final(self).wf(),
            final(self).spec_path() == old(self).spec_path(),
            final(self).spec_symbol() == old(self).spec_symbol(),
            final(self).waiting() == table(rows@) + old(self).waiting(),
    {
        let ghost later = self.buffer@;
        let ghost first = rows@;
        let mut combined: Vec<Vec<String>> = rows;
        combined.append(&mut self.buffer);
        self.buffer = combined;
        proof {
            assert(table(self.buffer@) =~= table(first) + table(later));
            assert forall|i: int| 0 <= i < self.waiting().len() implies (
            #[trigger] self.waiting()[i]).len() == COLUMNS by {
                if i < first.len() {
                    assert(first[i]@.len() == COLUMNS);
                } else {
                    assert(self.waiting()[i] == old(self).waiting()[i - first.len()]);
                }
            }
        }
    }

    /// Forgets the rows that wait, and gives the bytes of a log without fills.
    pub fn clear(&mut self) -> (r: Vec<u8>)
        ensures
            final(self).wf(),
            final(self).spec_path() == old(self).spec_path(),
            final(self).spec_symbol() == old(self).spec_symbol(),
            final(self).waiting() == Seq::<Seq<Seq<char>>>::empty(),
            r@ == csv_line(header()),
    {
        self.buffer.clear();
        proof {
            assert(self.waiting() =~= Seq::empty());
        }
        let head: Vec<String> = header_row();
        encode_row(&head)
    }

    /// Number of rows that wait.
    pub fn buffered_len(&self) -> (r: usize)
        ensures
            r == self.waiting().len(),
    {
        self.buffer.len()
    }
}

/// How a number is written with a number of significant digits.
#[derive(Clone, Copy, Debug, PartialEq, Eq, Structural)]
pub enum Notation {
    Zero,
    NotFinite,
    /// With this many decimals.
    Fixed(u32),
    /// With this many decimals of the mantissa.
    Scientific(u32),
}

/// How a number is written with a number of significant digits, given the decimal exponent of
/// its size.
pub open spec fn notation(x: Num, prec: u32, exp: int) -> Notation {
    let p = if prec < 1 {
        1
    } else {
        prec as int
    };
    if x.same(spec_zero()) {
        Notation::Zero
    } else if !x.finite() {
        Notation::NotFinite
    } else if exp < -4 || exp >= p {
        Notation::Scientific((p - 1) as u32)
    } else {
        Notation::Fixed((p - 1 - exp) as u32)
    }
}

/// How a number is written with a number of significant digits, given the decimal exponent of
/// its size.
pub fn choose_notation(x: Num, prec: u32, exp: i64) -> (r: Notation)
    requires
        prec <= u32::MAX - 3,
    ensures
        r == notation(x, prec, exp as int),
{
    if x.is_zero() {
        return Notation::Zero;
    }
    if !x.is_finite() {
        return Notation::NotFinite;
    }
    let p: i64 = if prec < 1 { 1 } else { prec as i64 };
    if exp < -4 || exp >= p {
        Notation::Scientific((p - 1) as u32)
    } else {
        Notation::Fixed((p - 1 - exp) as u32)
    }
}

/// A text without the run of one character at its end.
pub open spec fn without_tail(s: Seq<char>, c: char) -> Seq<char>
    decreases s.len(),
{
    if s.len() > 0 && s.last() == c {
        without_tail(s.drop_last(), c)
    } else {
        s
    }
}

/// A number in print without the zeros that end its decimals, nor a point that ends it.
pub open spec fn stripped(s: Seq<char>) -> Seq<char> {
    if s.contains('.') {
        without_tail(without_tail(s, '0'), '.')
    } else {
        s
    }
}

/// Index of the first `e`, or the length of the text.
pub open spec fn e_at(s: Seq<char>) -> nat
    decreases s.len(),
{
    if s.len() == 0 || s[0] == 'e' {
        0
    } else {
        1 + e_at(s.drop_first())
    }
}

/// The digits of an exponent, two at least. A lone character of more than one byte counts as two.
pub open spec fn two_digits(s: Seq<char>) -> Seq<char> {
    if s.len() == 0 {
        "00"@
    } else if s.len() == 1 && (s[0] as u32) < 128 {
        "0"@ + s
    } else {
        s
    }
}

/// A number in scientific notation with its mantissa stripped, and its exponent with a sign and
/// two digits at least.
pub open spec fn stripped_scientific(s: Seq<char>) -> Seq<char> {
    let at = e_at(s) as int;
    if at == s.len() {
        s
    } else {
        let exp = s.subrange(at + 1, s.len() as int);
        let mantissa = stripped(s.subrange(0, at));
        if exp.len() > 0 && exp[0] == '-' {
            mantissa + "e-"@ + two_digits(exp.drop_first())
        } else if exp.len() > 0 && exp[0] == '+' {
            mantissa + "e+"@ + two_digits(exp.drop_first())
        } else {
            mantissa + "e+"@ + two_digits(exp)
        }
    }
}

/// A text without the run of one character at its end.
fn trim_tail(s: &str, c: char) -> (r: &str)
    ensures
        r@ == without_tail(s@, c),
{
    let v: Vec<char> = chars_of(s);
    let mut n: usize = v.len();
    proof {
        assert(s@.subrange(0, n as int) =~= s@);
    }
    while n > 0 && v[n - 1] == c
        invariant
            v@ == s@,
            n <= v@.len(),
            without_tail(s@, c) == without_tail(s@.subrange(0, n as int), c),
        decreases n,
    {
        proof {
            assert(s@.subrange(0, n as int).drop_last() =~= s@.subrange(0, n - 1));
        }
        n = n - 1;
    }
    s.substring_char(0, n)
}

/// A number in print without the zeros that end its decimals, nor a point that ends it.
pub fn strip_fixed(s: &str) -> (r: String)
    ensures
        r@ == stripped(s@),
{
    let v: Vec<char> = chars_of(s);
    let mut i: usize = 0;
    while i < v.len()
        invariant
            v@ == s@,
            i <= v@.len(),
            forall|k: int| 0 <= k < i ==> #[trigger] s@[k] != '.',
        decreases v@.len() - i,
    {
        if v[i] == '.' {
            proof {
                assert(s@[i as int] == '.');
            }
            return trim_tail(trim_tail(s, '0'), '.').to_owned();
        }
        i = i + 1;
    }
    s.to_owned()
}

fn pad_exponent(s: &str) -> (r: String)
    ensures
        r@ == two_digits(s@),
{
    let n: usize = s.unicode_len();
    if n == 0 {
        "00".to_owned()
    } else if n == 1 && (s.get_char(0) as u32) < 128 {
        "0".to_owned().concat(s)
    } else {
        s.to_owned()
    }
}

proof fn lemma_e_at(s: Seq<char>, i: int)
    requires
        0 <= i <= s.len(),
        forall|k: int| 0 <= k < i ==> #[trigger] s[k] != 'e',
        i == s.len() || s[i] == 'e',
    ensures
        e_at(s) == i,
    decreases s.len(),
{
    if i > 0 {
        let rest = s.drop_first();
        assert forall|k: int| 0 <= k < i - 1 implies #[trigger] rest[k] != 'e' by {
            assert(s[k + 1] != 'e');
        }
        assert(s[0] != 'e');
        lemma_e_at(rest, i - 1);
    }
}

/// A number in scientific notation with its mantissa stripped, and its exponent with a sign and
/// two digits at least.
pub fn strip_sci(s: &str) -> (r: String)
    ensures
        r@ == stripped_scientific(s@),
{
    let v: Vec<char> = chars_of(s);
    let n: usize = v.len();
    let mut i: usize = 0;
    while i < n && v[i] != 'e'
        invariant
            v@ == s@,
            n == v@.len(),
            i <= n,
            forall|k: int| 0 <= k < i ==> #[trigger] s@[k] != 'e',
        decreases n - i,
    {
        i = i + 1;
    }
    proof {
        lemma_e_at(s@, i as int);
    }
    if i == n {
        return s.to_owned();
    }
    let mantissa: String = strip_fixed(s.substring_char(0, i));
    let exp: &str = s.substring_char(i + 1, n);
    let ghost tail = s@.subrange(i + 1, n as int);
    if i + 1 < n && v[i + 1] == '-' {
        let digits: String = pad_exponent(s.substring_char(i + 2, n));
        proof {
            assert(tail.drop_first() =~= s@.subrange(i + 2, n as int));
        }
        mantissa.concat("e-").concat(digits.as_str())
    } else if i + 1 < n && v[i + 1] == '+' {
        let digits: String = pad_exponent(s.substring_char(i + 2, n));
        proof {
            assert(tail.drop_first() =~= s@.subrange(i + 2, n as int));
        }
        mantissa.concat("e+").concat(digits.as_str())
    } else {
        let digits: String = pad_exponent(exp);
        mantissa.concat("e+").concat(digits.as_str())
    }
}

/// The text of a number in its notation, from what was printed with that many decimals.
pub fn general_text(notation: Notation, printed: &str) -> (r: String)
    ensures
        r@ == match notation {
            Notation::Zero => "0"@,
            Notation::NotFinite => printed@,
            Notation::Fixed(_) => stripped(printed@),
            Notation::Scientific(_) => stripped_scientific(printed@),
        },
{
    match notation {
        Notation::Zero => "0".to_owned(),
        Notation::NotFinite => printed.to_owned(),
        Notation::Fixed(_) => strip_fixed(printed),
        Notation::Scientific(_) => strip_sci(printed),
    }
}

proof fn lemma_without_tail(s: Seq<char>, c: char)
    ensures
        without_tail(s, c).len() <= s.len(),
        without_tail(s, c) == s.take(without_tail(s, c).len() as int),
        without_tail(s, c).len() > 0 ==> without_tail(s, c).last() != c,
    decreases s.len(),
{
    if s.len() > 0 && s.last() == c {
        lemma_without_tail(s.drop_last(), c);
        let t = without_tail(s, c);
        assert(s.drop_last().take(t.len() as int) =~= s.take(t.len() as int));
    } else {
        assert(s.take(s.len() as int) =~= s);
    }
}

/// A stripped number does not end in a point.
pub proof fn stripped_numbers_end_in_no_point(s: Seq<char>)
    ensures
        stripped(s).len() > 0 ==> stripped(s).last() != '.',
{
    if s.contains('.') {
        lemma_without_tail(without_tail(s, '0'), '.');
    } else if s.len() > 0 {
        assert(s.contains(s.last()));
    }
}

/// Rows that could not be written are written with the next ones, in the order in which they
/// were logged.
pub proof fn failed_rows_keep_their_order(
    first: Seq<Seq<Seq<char>>>,
    later: Seq<Seq<Seq<char>>>,
    next: Seq<Seq<char>>,
)
    ensures
        first + later.push(next) == (first + later).push(next),
        csv_lines(first + later) == csv_lines(first) + csv_lines(later),
    decreases later.len(),
{
    assert(first + later.push(next) =~= (first + later).push(next));
    if later.len() == 0 {
        assert(first + later =~= first);
        assert(csv_lines(first) + csv_lines(later) =~= csv_lines(first));
    } else {
        failed_rows_keep_their_order(first, later.drop_last(), later.last());
        assert((first + later).drop_last() =~= first + later.drop_last());
        assert(csv_lines(first + later) =~= csv_lines(first) + csv_lines(later));
    }
}

/// A log that was started with its columns and only ever appended to is kept as it is when it is
/// opened again.
pub proof fn reopened_log_keeps_its_header(rows: Seq<Seq<Seq<char>>>, plan: HeaderPlan)
    requires
        planned(seq![header()] + rows, plan),
    ensures
        plan is Keep,
        csv_lines(seq![header()] + rows) == csv_line(header()) + csv_lines(rows),
{
    assert((seq![header()] + rows)[0] == header());
    lines_split(header(), rows);
}

/// The columns and rows that each have a cell for every column are read back as they were
/// written.
pub proof fn written_log_reads_back(rows: Seq<Seq<Seq<char>>>)
    requires
        forall|i: int| 0 <= i < rows.len() ==> (#[trigger] rows[i]).len() == COLUMNS,
    ensures
        reads_back(seq![header()] + rows),
{
    reveal_strlit("timestamp");
    let all = seq![header()] + rows;
    assert forall|i: int| 0 <= i < all.len() implies (#[trigger] all[i]).len() > 0 by {
        if i > 0 {
            assert(all[i] == rows[i - 1]);
        }
    }
    assert(all[0] == header());
    assert(header()[0] == "timestamp"@);
}

/// A row has a cell for each column, and each cell is what its column is named after; a cell whose
/// number or text is missing is empty, and a fill without a time of its own has the stamp.
pub proof fn cells_stand_under_their_columns(
    symbol: Seq<char>,
    row: TradeRow,
    t: RowTexts,
    stamp: Seq<char>,
)
    ensures
        ({
            let h = header();
            let c = row_cells(symbol, row, t, stamp);
            &&& h.len() == 21 && c.len() == 21
            &&& h[0] == "timestamp"@ && h[1] == "symbol"@ && h[2] == "side"@
            &&& row.timestamp is Some ==> c[0] == row.timestamp->0@
            &&& row.timestamp is None ==> c[0] == stamp
            &&& c[1] == symbol && c[2] == row.side@
            &&& h[3] == "price"@ && c[3] == t.price@
            &&& h[4] == "size"@ && c[4] == t.size@
            &&& h[5] == "level"@ && c[5] == signed_decimal(row.level as int)
            &&& h[6] == "position_after"@ && c[6] == t.position_after@
            &&& h[7] == "realized_pnl"@ && c[7] == t.realized_pnl@
            &&& h[8] == "available_capital"@ && c[8] == t.available_capital@
            &&& h[9] == "portfolio_value"@ && c[9] == t.portfolio_value@
            &&& h[10] == "simulated"@
            &&& row.simulated ==> c[10] == "true"@
            &&& !row.simulated ==> c[10] == "false"@
            &&& h[11] == "notional_usd"@ && c[11] == t.notional_usd@
            &&& h[12] == "fee_usd"@
            &&& row.fee_usd is Some ==> c[12] == t.fee_usd@
            &&& row.fee_usd is None ==> c[12].len() == 0
            &&& h[13] == "entry_vwap_after"@
            &&& row.entry_vwap_after is Some ==> c[13] == t.entry_vwap_after@
            &&& row.entry_vwap_after is None ==> c[13].len() == 0
            &&& h[14] == "realized_pnl_cumulative"@
            &&& row.realized_pnl_cumulative is Some ==> c[14] == t.realized_pnl_cumulative@
            &&& row.realized_pnl_cumulative is None ==> c[14].len() == 0
            &&& h[15] == "mid_at_fill"@
            &&& row.mid_at_fill is Some ==> c[15] == t.mid_at_fill@
            &&& row.mid_at_fill is None ==> c[15].len() == 0
            &&& h[16] == "spread_capture_bps"@
            &&& row.spread_capture_bps is Some ==> c[16] == t.spread_capture_bps@
            &&& row.spread_capture_bps is None ==> c[16].len() == 0
            &&& h[17] == "inventory_after_usd"@
            &&& row.inventory_after_usd is Some ==> c[17] == t.inventory_after_usd@
            &&& row.inventory_after_usd is None ==> c[17].len() == 0
            &&& h[18] == "client_order_index"@
            &&& row.client_order_index is Some ==> c[18] == row.client_order_index->0@
            &&& row.client_order_index is None ==> c[18].len() == 0
            &&& h[19] == "exchange_order_index"@
            &&& row.exchange_order_index is Some ==> c[19] == row.exchange_order_index->0@
            &&& row.exchange_order_index is None ==> c[19].len() == 0
            &&& h[20] == "fill_source"@ && c[20] == row.fill_source@
        }),
{
}

/// Filling a row up adds empty cells behind it up to 21, and changes none that it has.
pub proof fn rows_are_filled_up(row: Seq<Seq<char>>)
    ensures
        row.len() >= 21 ==> padded(row) == row,
        row.len() < 21 ==> padded(row).len() == 21,
        forall|i: int| 0 <= i < row.len() ==> #[trigger] padded(row)[i] == row[i],
        forall|i: int| row.len() <= i < 21 ==> (#[trigger] padded(row)[i]).len() == 0,
{
}

/// What a log needs before it is appended to. One whose first row is the columns needs nothing. One
/// with another first row cannot be mended where a later row is too wide; else it begins with the
/// columns instead, and its later rows are filled up. One without rows, or with an empty first row,
/// becomes the columns alone.
pub proof fn logs_are_given_their_columns(rows: Seq<Seq<Seq<char>>>, plan: HeaderPlan)
    requires
        planned(rows, plan),
    ensures
        ({
            let started = rows.len() > 0 && rows[0].len() > 0;
            let kept = rows.len() > 0 && rows[0] == header();
            let wide = exists|i: int| 1 <= i < rows.len() && (#[trigger] rows[i]).len() > 21;
            &&& kept ==> plan is Keep
            &&& !kept && started && wide ==> plan is TooWide
            &&& !kept && started && !wide ==> {
                &&& plan matches HeaderPlan::Replace(bytes)
                &&& bytes@ == csv_line(header()) + csv_lines(
                    Seq::new((rows.len() - 1) as nat, |i: int| padded(rows[i + 1])),
                )
            }
            &&& !kept && !started ==> {
                &&& plan matches HeaderPlan::Replace(bytes)
                &&& bytes@ == csv_line(header())
            }
        }),
{
    let rest = rows.drop_first();
    if rows.len() > 0 {
        let want = Seq::new((rows.len() - 1) as nat, |i: int| padded(rows[i + 1]));
        assert(all_padded(rest) =~= want);
        if some_too_wide(rest) {
            let i = choose|i: int| 0 <= i < rest.len() && (#[trigger] rest[i]).len() > COLUMNS;
            assert(rows[i + 1].len() > 21);
        }
        if exists|i: int| 1 <= i < rows.len() && (#[trigger] rows[i]).len() > 21 {
            let i = choose|i: int| 1 <= i < rows.len() && (#[trigger] rows[i]).len() > 21;
            assert(rest[i - 1].len() > COLUMNS);
        }
    }
}

/// A number is written in full where its exponent is -4 at least and below the number of significant
/// digits, with so many decimals that all of those show; else in scientific notation. Zero, and what
/// is not finite, are written as they are.
pub proof fn small_and_large_numbers_are_scientific(x: Num, prec: u32, exp: int)
    requires
        1 <= prec <= u32::MAX - 3,
    ensures
        x.same(spec_zero()) ==> notation(x, prec, exp) == Notation::Zero,
        !x.same(spec_zero()) && !x.finite() ==> notation(x, prec, exp) == Notation::NotFinite,
        !x.same(spec_zero()) && x.finite() && -4 <= exp < prec ==> ({
            &&& notation(x, prec, exp) matches Notation::Fixed(d)
            &&& d + 1 + exp == prec
        }),
        !x.same(spec_zero()) && x.finite() && (exp < -4 || exp >= prec) ==> ({
            &&& notation(x, prec, exp) matches Notation::Scientific(d)
            &&& d + 1 == prec
        }),
        notation(x, 0, exp) == notation(x, 1, exp),
{
}

proof fn lemma_tail_gone(s: Seq<char>, c: char, k: nat)
    requires
        s.len() == 0 || s.last() != c,
    ensures
        without_tail(s + Seq::new(k, |i: int| c), c) == s,
    decreases k,
{
    let t = s + Seq::new(k, |i: int| c);
    if k > 0 {
        lemma_tail_gone(s, c, (k - 1) as nat);
        assert(t.drop_last() =~= s + Seq::new((k - 1) as nat, |i: int| c));
    } else {
        assert(t =~= s);
    }
}

/// A number in print loses the zeros that end its decimals, all of them and no others, and its point
/// where no decimals are left; one without a point loses nothing.
pub proof fn decimals_lose_their_last_zeros(whole: Seq<char>, frac: Seq<char>, k: nat)
    requires
        !whole.contains('.'),
        !frac.contains('.'),
        frac.len() == 0 || frac.last() != '0',
    ensures
        stripped(whole) == whole,
        frac.len() == 0 ==> stripped(whole.push('.') + Seq::new(k, |i: int| '0')) == whole,
        frac.len() > 0 ==> stripped(whole.push('.') + frac + Seq::new(k, |i: int| '0'))
            == whole.push('.') + frac,
{
    let zeros = Seq::new(k, |i: int| '0');
    if frac.len() == 0 {
        let s = whole.push('.') + zeros;
        assert(s[whole.len() as int] == '.');
        lemma_tail_gone(whole.push('.'), '0', k);
        if whole.len() > 0 {
            assert(whole.contains(whole.last()));
        }
        lemma_tail_gone(whole, '.', 1);
        assert(whole + Seq::new(1, |i: int| '.') =~= whole.push('.'));
    } else {
        let body = whole.push('.') + frac;
        let s = body + zeros;
        assert(s[whole.len() as int] == '.');
        assert(body.last() == frac.last());
        assert(frac.contains(frac.last()));
        lemma_tail_gone(body, '0', k);
        lemma_tail_gone(body, '.', 0);
        assert(body + Seq::new(0, |i: int| '.') =~= body);
    }
}

/// A number in scientific notation has its mantissa stripped, and its exponent gets a sign where it
/// has none, and a zero in front where it has one digit.
pub proof fn exponents_have_a_sign_and_two_digits(
    mantissa: Seq<char>,
    digits: Seq<char>,
)
    requires
        !mantissa.contains('e'),
        digits.len() > 0,
        digits[0] != '-' && digits[0] != '+',
        (digits[0] as u32) < 128,
    ensures
        stripped_scientific(mantissa) == mantissa,
        ({
            let two = if digits.len() == 1 {
                seq!['0'] + digits
            } else {
                digits
            };
            &&& stripped_scientific(mantissa.push('e') + digits) == stripped(mantissa) + seq![
                'e',
                '+',
            ] + two
            &&& stripped_scientific(mantissa.push('e').push('+') + digits) == stripped(mantissa)
                + seq!['e', '+'] + two
            &&& stripped_scientific(mantissa.push('e').push('-') + digits) == stripped(mantissa)
                + seq!['e', '-'] + two
        }),
{
    reveal_strlit("e+");
    reveal_strlit("e-");
    reveal_strlit("0");
    assert("e+"@ =~= seq!['e', '+']);
    assert("e-"@ =~= seq!['e', '-']);
    assert("0"@ =~= seq!['0']);
    assert forall|k: int| 0 <= k < mantissa.len() implies #[trigger] mantissa[k] != 'e' by {
        assert(mantissa.contains(mantissa[k]));
    }
    lemma_e_at(mantissa, mantissa.len() as int);
    let n = mantissa.len() as int;
    let a = mantissa.push('e') + digits;
    lemma_e_at(a, n);
    assert(a.subrange(0, n) =~= mantissa);
    assert(a.subrange(n + 1, a.len() as int) =~= digits);
    let b = mantissa.push('e').push('+') + digits;
    lemma_e_at(b, n);
    assert(b.subrange(0, n) =~= mantissa);
    assert(b.subrange(n + 1, b.len() as int).drop_first() =~= digits);
    let c = mantissa.push('e').push('-') + digits;
    lemma_e_at(c, n);
    assert(c.subrange(0, n) =~= mantissa);
    assert(c.subrange(n + 1, c.len() as int).drop_first() =~= digits);
}

} // verus!
