//! Builds the raw buy list out of the downloaded CSV text.
//!
//! The text has a header row, no doubled-quote escaping, and backslash as
//! the escape byte; each data row carries five fields — company name,
//! symbol, rank, industry rank, momentum. The csv crate does the parsing;
//! everything after it — shaping rows into stocks, rejecting short rows —
//! is verified here.

use vstd::prelude::*;

verus! {

/// One row of the downloaded buy list.
#[derive(Clone, Debug, PartialEq, Eq)]
pub struct Stock {
    pub company_name: String,
    pub symbol: String,
    pub zacks_rank: String,
    pub industry_rank: String,
    pub momentum: String,
}

/// The whole buy list, in file order.
#[derive(Clone, Debug, PartialEq, Eq)]
pub struct ZacksBuys {
    pub list: Vec<Stock>,
}

/// Why the buy list could not be built from the raw text.
#[derive(Clone, Copy, Debug, PartialEq, Eq, Structural)]
pub enum CsvError {
    /// The text is malformed under the expected format.
    Syntax,
    /// Some data row holds fewer than the five expected fields.
    ShortRow,
}

/// The data rows (the header row excluded) that the configured reader
/// parses out of the text — each row a sequence of fields — or nothing
/// when the text is malformed. The outcome is a function of the text
/// alone.
pub uninterp spec fn csv_rows(text: Seq<char>) -> Option<Seq<Seq<Seq<char>>>>;

/// Relies on csv::ReaderBuilder and csv::Reader::records: configured with
/// a header row, doubled quotes off and backslash escapes, the reader
/// yields the data rows of the text as field strings in order, or fails on
/// malformed input, depending on the text alone.
#[verifier::external_body]
fn parse_rows(text: &str) -> (r: Option<Vec<Vec<String>>>)
    ensures
        r.deep_view() == csv_rows(text@),
{
    let mut builder = csv::ReaderBuilder::new();
    builder.has_headers(true).double_quote(false).escape(Some(b'\\'));
    let mut reader = builder.from_reader(text.as_bytes());
    reader
        .records()
        .map(|row| row.ok().map(|rec| rec.iter().map(String::from).collect()))
        .collect()
}

/// Whether a parsed row carries at least the five expected fields.
pub open spec fn spec_row_ok(row: Seq<Seq<char>>) -> bool {
    row.len() >= 5
}

/// The stock a well-formed row describes: its first five fields, in file
/// order. Any surplus fields are ignored.
pub open spec fn stock_matches_row(s: Stock, row: Seq<Seq<char>>) -> bool {
    &&& s.company_name@ == row[0]
    &&& s.symbol@ == row[1]
    &&& s.zacks_rank@ == row[2]
    &&& s.industry_rank@ == row[3]
    &&& s.momentum@ == row[4]
}

/// The buy list matches the rows one for one, in order.
pub open spec fn buys_match_rows(z: ZacksBuys, rows: Seq<Seq<Seq<char>>>) -> bool {
    &&& z.list@.len() == rows.len()
    &&& forall|i: int| 0 <= i < rows.len() ==> stock_matches_row(#[trigger] z.list@[i], rows[i])
}

/// Shapes parsed rows into the buy list. Succeeds exactly when every row
/// carries at least five fields; a short row anywhere rejects the whole
/// list.
pub fn stocks_from_rows(rows: Vec<Vec<String>>) -> (r: Result<ZacksBuys, CsvError>)
    ensures
        r matches Ok(z) <==> (forall|i: int|
            0 <= i < rows.deep_view().len() ==> spec_row_ok(#[trigger] rows.deep_view()[i])),
        r matches Ok(z) ==> buys_match_rows(z, rows.deep_view()),
        r matches Err(e) ==> e == CsvError::ShortRow,
{
    let ghost all = rows.deep_view();
    proof {
        assert forall|i: int| 0 <= i < all.len() implies #[trigger] all[i] == rows@[i].deep_view()
        by {
        }
    }
    let mut list: Vec<Stock> = Vec::new();
    let mut rest = rows;
    let ghost mut done: int = 0;
    while rest.len() > 0
        invariant
            0 <= done <= all.len(),
            all.len() == rows@.len(),
            forall|i: int| 0 <= i < all.len() ==> #[trigger] all[i] == rows@[i].deep_view(),
            rest@ =~= rows@.subrange(done, rows@.len() as int),
            list@.len() == done,
            forall|i: int| 0 <= i < done ==> spec_row_ok(#[trigger] all[i]),
            forall|i: int| 0 <= i < done ==> stock_matches_row(#[trigger] list@[i], all[i]),
        decreases rest@.len(),
    {
        let mut row = rest.remove(0);
        proof {
            assert(row == rows@[done]);
            assert(row.deep_view() == all[done]);
            assert forall|k: int| 0 <= k < row@.len() implies #[trigger] row@[k]@
                == row.deep_view()[k] by {
            }
        }
        if row.len() < 5 {
            proof {
                assert(0 <= done < rows.deep_view().len());
                assert(!spec_row_ok(rows.deep_view()[done]));
                assert(!(forall|i: int|
                    0 <= i < rows.deep_view().len() ==> spec_row_ok(
                        #[trigger] rows.deep_view()[i],
                    )));
            }
            return Err(CsvError::ShortRow);
        }
        let company_name = row.remove(0);
        let symbol = row.remove(0);
        let zacks_rank = row.remove(0);
        let industry_rank = row.remove(0);
        let momentum = row.remove(0);
        let stock = Stock { company_name, symbol, zacks_rank, industry_rank, momentum };
        assert(stock_matches_row(stock, all[done]));
        list.push(stock);
        proof {
            done = done + 1;
        }
    }
    Ok(ZacksBuys { list })
}

/// Parses the downloaded CSV text into the buy list: malformed text is a
/// syntax error, a data row with fewer than five fields rejects the list,
/// and otherwise every data row becomes one stock, in file order.
pub fn parse_csv(text: &str) -> (r: Result<ZacksBuys, CsvError>)
    ensures
        csv_rows(text@) is None ==> r == Err::<ZacksBuys, CsvError>(CsvError::Syntax),
        csv_rows(text@) matches Some(rows) ==> (r matches Ok(z) <==> (forall|i: int|
            0 <= i < rows.len() ==> spec_row_ok(#[trigger] rows[i]))),
        csv_rows(text@) matches Some(rows) ==> (r matches Ok(z) ==> buys_match_rows(z, rows)),
        csv_rows(text@) is Some ==> (r matches Err(e) ==> e == CsvError::ShortRow),
{
    match parse_rows(text) {
        Option::Some(rows) => {
            let ghost parsed = rows.deep_view();
            proof {
                assert(csv_rows(text@) == Some(parsed));
            }
            let out = stocks_from_rows(rows);
            proof {
                assert(csv_rows(text@) matches Some(spec_rows) ==> spec_rows == parsed);
                assert(out matches Ok(z) <==> (forall|i: int|
                    0 <= i < parsed.len() ==> spec_row_ok(#[trigger] parsed[i])));
                assert(out matches Ok(z) ==> buys_match_rows(z, parsed));
            }
            out
        },
        Option::None => {
            proof {
                assert(csv_rows(text@) is None);
            }
            Err(CsvError::Syntax)
        },
    }
}

} // verus!
