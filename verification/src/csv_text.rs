//! Tables as CSV.
use vstd::prelude::*;

verus! {

/// The cells of a row.
pub open spec fn cells(row: Seq<String>) -> Seq<Seq<char>> {
    Seq::new(row.len(), |i: int| row[i]@)
}

/// The cells of a table.
pub open spec fn table(rows: Seq<Vec<String>>) -> Seq<Seq<Seq<char>>> {
    Seq::new(rows.len(), |i: int| cells(rows[i]@))
}

/// A row grows by a cell.
pub proof fn cells_push(row: Seq<String>, cell: String)
    ensures
        cells(row.push(cell)) == cells(row).push(cell@),
{
    assert(cells(row.push(cell)) =~= cells(row).push(cell@));
}

/// A table grows by a row.
pub proof fn table_push(rows: Seq<Vec<String>>, row: Vec<String>)
    ensures
        table(rows.push(row)) == table(rows).push(cells(row@)),
{
    assert(table(rows.push(row)) =~= table(rows).push(cells(row@)));
}

/// The line that the `csv` crate writes for a row, its terminator with it.
pub uninterp spec fn csv_line(row: Seq<Seq<char>>) -> Seq<u8>;

/// The table that the `csv` crate reads from a text, with rows of any length and no header;
/// nothing where it reports an error.
pub uninterp spec fn csv_table(bytes: Seq<u8>) -> Option<Seq<Seq<Seq<char>>>>;

/// The lines of a table.
pub open spec fn csv_lines(rows: Seq<Seq<Seq<char>>>) -> Seq<u8>
    decreases rows.len(),
{
    if rows.len() == 0 {
        Seq::empty()
    } else {
        csv_lines(rows.drop_last()) + csv_line(rows.last())
    }
}

/// Whether a table is read back as it was written: no row is empty, and the first cell does not
/// start with a byte order mark.
pub open spec fn reads_back(rows: Seq<Seq<Seq<char>>>) -> bool {
    &&& forall|i: int| 0 <= i < rows.len() ==> (#[trigger] rows[i]).len() > 0
    &&& rows.len() > 0 && rows[0][0].len() > 0 ==> rows[0][0][0] != '\u{feff}'
}

/// Calls `csv::Writer::write_record` on a fresh in-memory writer with the default settings, and
/// `into_inner`. Claimed: the bytes are a function of the cells alone. A write to memory does not
/// fail.
#[verifier::external_body]
pub(crate) fn encode_row(row: &Vec<String>) -> (r: Vec<u8>)
    ensures
        r@ == csv_line(cells(row@)),
{
    let mut writer = csv::WriterBuilder::new().from_writer(Vec::new());
    writer.write_record(row).expect("a record fits in memory");
    writer.into_inner().expect("memory takes what is flushed")
}

/// Calls `csv::Reader::records` with no header and rows of any length. Claimed: the table, or
/// that there is an error, is a function of the bytes alone; and lines that the crate wrote are
/// read back as the rows they came from.
#[verifier::external_body]
pub(crate) fn decode_table(bytes: &Vec<u8>) -> (r: Option<Vec<Vec<String>>>)
    ensures
        match (r, csv_table(bytes@)) {
            (Some(rows), Some(t)) => table(rows@) == t,
            (None, None) => true,
            _ => false,
        },
        forall|rows: Seq<Seq<Seq<char>>>|
            reads_back(rows) && bytes@ == #[trigger] csv_lines(rows) ==> r is Some && table(r->0@)
                == rows,
{
    let mut reader = csv::ReaderBuilder::new().has_headers(false).flexible(true).from_reader(
        bytes.as_slice(),
    );
    let rows: Result<Vec<Vec<String>>, csv::Error> = reader.records().map(
        |rec| rec.map(|cells| cells.iter().map(str::to_owned).collect()),
    ).collect();
    rows.ok()
}

/// The lines of a table.
pub fn encode_rows(rows: &Vec<Vec<String>>) -> (r: Vec<u8>)
    ensures
        r@ == csv_lines(table(rows@)),
{
    let mut out: Vec<u8> = Vec::new();
    let mut i: usize = 0;
    let ghost all = table(rows@);
    proof {
        assert(all.take(0) =~= Seq::empty());
    }
    while i < rows.len()
        invariant
            i <= rows@.len(),
            all == table(rows@),
            out@ == csv_lines(all.take(i as int)),
        decreases rows@.len() - i,
    {
        let mut line: Vec<u8> = encode_row(&rows[i]);
        out.append(&mut line);
        i = i + 1;
        proof {
            assert(all.take(i as int).drop_last() =~= all.take(i - 1));
        }
    }
    proof {
        assert(all.take(i as int) =~= all);
    }
    out
}

/// The lines of a table start with the line of its first row.
pub proof fn lines_split(first: Seq<Seq<char>>, rest: Seq<Seq<Seq<char>>>)
    ensures
        csv_lines(seq![first] + rest) == csv_line(first) + csv_lines(rest),
    decreases rest.len(),
{
    let all = seq![first] + rest;
    if rest.len() == 0 {
        assert(all.drop_last() =~= Seq::empty());
        assert(csv_line(first) + csv_lines(rest) =~= csv_line(first));
        assert(all.last() == first);
        assert(csv_lines(all.drop_last()) =~= Seq::empty());
        assert(csv_lines(all) =~= csv_line(first));
    } else {
        lines_split(first, rest.drop_last());
        assert(all.drop_last() =~= seq![first] + rest.drop_last());
        assert(csv_lines(all) =~= csv_line(first) + csv_lines(rest));
    }
}

} // verus!
