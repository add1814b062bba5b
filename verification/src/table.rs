//! The tabular data model: input records (`name,url,price`), price records
//! (`name,url,current,usual`), and the comma-separated tables that carry
//! them. Reading and writing the comma-separated text itself is done by the
//! `csv` crate behind trusted wrappers; everything between text and records
//! is verified here.
use vstd::prelude::*;
use vstd::string::StringExecFns;

verus! {

/// One row of the input table: a product, its page, and the price on record.
pub struct Record {
    pub name: String,
    pub url: String,
    pub price: String,
}

/// The mathematical value of a `Record`.
#[verifier::ext_equal]
pub ghost struct RecordView {
    pub name: Seq<char>,
    pub url: Seq<char>,
    pub price: Seq<char>,
}

impl View for Record {
    type V = RecordView;

    open spec fn view(&self) -> RecordView {
        RecordView { name: self.name@, url: self.url@, price: self.price@ }
    }
}

impl DeepView for Record {
    type V = RecordView;

    open spec fn deep_view(&self) -> RecordView {
        self.view()
    }
}

/// One row of the price table: a product with the price found on its page
/// (`current`) beside the price on record (`usual`).
pub struct Price {
    pub name: String,
    pub url: String,
    pub current: String,
    pub usual: String,
}

/// The mathematical value of a `Price`.
#[verifier::ext_equal]
pub ghost struct PriceView {
    pub name: Seq<char>,
    pub url: Seq<char>,
    pub current: Seq<char>,
    pub usual: Seq<char>,
}

impl View for Price {
    type V = PriceView;

    open spec fn view(&self) -> PriceView {
        PriceView {
            name: self.name@,
            url: self.url@,
            current: self.current@,
            usual: self.usual@,
        }
    }
}

impl DeepView for Price {
    type V = PriceView;

    open spec fn deep_view(&self) -> PriceView {
        self.view()
    }
}

/// Why a table could not be read.
#[derive(Clone, Copy, Debug, PartialEq, Eq, Structural)]
pub enum InputError {
    /// The text is not well-formed comma-separated data.
    Syntax,
    /// The table has no rows at all, so no header row.
    MissingHeader,
    /// The first row is not the expected header.
    BadHeader,
    /// A row after the header has the wrong number of fields.
    BadRow,
}

/// The header row of the input table.
pub open spec fn input_header() -> Seq<Seq<char>> {
    seq!["name"@, "url"@, "price"@]
}

/// The header row of the price table.
pub open spec fn price_header() -> Seq<Seq<char>> {
    seq!["name"@, "url"@, "current"@, "usual"@]
}

/// The record held by one input row of three fields.
pub open spec fn record_of_row(row: Seq<Seq<char>>) -> RecordView {
    RecordView { name: row[0], url: row[1], price: row[2] }
}

/// The price record held by one price row of four fields.
pub open spec fn price_of_row(row: Seq<Seq<char>>) -> PriceView {
    PriceView { name: row[0], url: row[1], current: row[2], usual: row[3] }
}

/// The row that carries a price record, fields in the fixed order.
pub open spec fn row_of_price(p: PriceView) -> Seq<Seq<char>> {
    seq![p.name, p.url, p.current, p.usual]
}

/// What an input table's rows decode to: the header row must come first and
/// match exactly, and every later row must have exactly three fields.
pub open spec fn decode_input_rows(rows: Seq<Seq<Seq<char>>>) -> Result<
    Seq<RecordView>,
    InputError,
> {
    if rows.len() == 0 {
        Err(InputError::MissingHeader)
    } else if rows[0] != input_header() {
        Err(InputError::BadHeader)
    } else if exists|i: int| 1 <= i < rows.len() && rows[i].len() != 3 {
        Err(InputError::BadRow)
    } else {
        Ok(Seq::new((rows.len() - 1) as nat, |i: int| record_of_row(rows[i + 1])))
    }
}

/// What a price table's rows decode to, like `decode_input_rows` with the
/// price header and four fields per row.
pub open spec fn decode_price_rows(rows: Seq<Seq<Seq<char>>>) -> Result<
    Seq<PriceView>,
    InputError,
> {
    if rows.len() == 0 {
        Err(InputError::MissingHeader)
    } else if rows[0] != price_header() {
        Err(InputError::BadHeader)
    } else if exists|i: int| 1 <= i < rows.len() && rows[i].len() != 4 {
        Err(InputError::BadRow)
    } else {
        Ok(Seq::new((rows.len() - 1) as nat, |i: int| price_of_row(rows[i + 1])))
    }
}

/// The rows that carry a sequence of price records: the header row, then one
/// row per record, in order.
pub open spec fn encode_price_rows(ps: Seq<PriceView>) -> Seq<Seq<Seq<char>>> {
    seq![price_header()] + ps.map_values(|p: PriceView| row_of_price(p))
}

/// A price table encoded from any records is a valid price table again, and
/// decodes to exactly the records it was encoded from.
pub proof fn lemma_price_rows_round_trip(ps: Seq<PriceView>)
    ensures
        decode_price_rows(encode_price_rows(ps)) == Ok::<Seq<PriceView>, InputError>(ps),
{
    let rows = encode_price_rows(ps);
    assert(rows.len() == ps.len() + 1);
    assert(rows[0] == price_header());
    assert forall|i: int| 1 <= i < rows.len() implies rows[i].len() == 4 by {
        assert(rows[i] == ps.map_values(|p: PriceView| row_of_price(p))[i - 1]);
        assert(rows[i] == row_of_price(ps[i - 1]));
    }
    let dec = Seq::new((rows.len() - 1) as nat, |i: int| price_of_row(rows[i + 1]));
    assert forall|i: int| 0 <= i < ps.len() implies dec[i] == ps[i] by {
        assert(rows[i + 1] == ps.map_values(|p: PriceView| row_of_price(p))[i]);
        assert(rows[i + 1] == row_of_price(ps[i]));
        assert(price_of_row(row_of_price(ps[i])) =~= ps[i]);
    }
    assert(dec =~= ps);
}

/// Whether a row is exactly the input table's header.
fn row_is_input_header(row: &Vec<String>) -> (r: bool)
    ensures
        r == (row.deep_view() == input_header()),
{
    let ghost dv = row.deep_view();
    if row.len() != 3 {
        proof {
            assert(dv.len() == row@.len());
            assert(input_header().len() == 3);
        }
        return false;
    }
    let r = row[0].eq(&String::from_str("name")) && row[1].eq(&String::from_str("url"))
        && row[2].eq(&String::from_str("price"));
    proof {
        assert(dv[0] == row@[0]@ && dv[1] == row@[1]@ && dv[2] == row@[2]@);
        if r {
            assert(dv =~= input_header());
        } else {
            assert(dv != input_header());
        }
    }
    r
}

/// Whether a row is exactly the price table's header.
fn row_is_price_header(row: &Vec<String>) -> (r: bool)
    ensures
        r == (row.deep_view() == price_header()),
{
    let ghost dv = row.deep_view();
    if row.len() != 4 {
        proof {
            assert(dv.len() == row@.len());
            assert(price_header().len() == 4);
        }
        return false;
    }
    let r = row[0].eq(&String::from_str("name")) && row[1].eq(&String::from_str("url"))
        && row[2].eq(&String::from_str("current")) && row[3].eq(&String::from_str("usual"));
    proof {
        assert(dv[0] == row@[0]@ && dv[1] == row@[1]@ && dv[2] == row@[2]@ && dv[3] == row@[3]@);
        if r {
            assert(dv =~= price_header());
        } else {
            assert(dv != price_header());
        }
    }
    r
}

/// Decodes the rows of an input table into records, as `decode_input_rows`
/// describes.
pub fn decode_input(rows: &Vec<Vec<String>>) -> (r: Result<Vec<Record>, InputError>)
    ensures
        match r {
            Ok(recs) => decode_input_rows(rows.deep_view()) == Ok::<Seq<RecordView>, InputError>(
                recs.deep_view(),
            ),
            Err(e) => decode_input_rows(rows.deep_view()) == Err::<Seq<RecordView>, InputError>(e),
        },
{
    let ghost dv = rows.deep_view();
    proof {
        assert(dv.len() == rows@.len());
    }
    if rows.len() == 0 {
        return Err(InputError::MissingHeader);
    }
    if !row_is_input_header(&rows[0]) {
        proof {
            assert(dv[0] == rows@[0].deep_view());
        }
        return Err(InputError::BadHeader);
    }
    proof {
        assert(dv[0] == rows@[0].deep_view());
    }
    let mut recs: Vec<Record> = Vec::new();
    let mut i: usize = 1;
    while i < rows.len()
        invariant
            dv == rows.deep_view(),
            dv.len() == rows@.len(),
            1 <= i <= rows@.len(),
            dv[0] == input_header(),
            forall|k: int| 1 <= k < i ==> dv[k].len() == 3,
            recs.deep_view() =~= Seq::new((i - 1) as nat, |k: int| record_of_row(dv[k + 1])),
        decreases rows@.len() - i,
    {
        proof {
            assert(dv[i as int] == rows@[i as int].deep_view());
            assert(dv[i as int].len() == rows@[i as int]@.len());
        }
        if rows[i].len() != 3 {
            proof {
                assert(dv[i as int].len() != 3);
            }
            return Err(InputError::BadRow);
        }
        let rec = Record {
            name: rows[i][0].clone(),
            url: rows[i][1].clone(),
            price: rows[i][2].clone(),
        };
        proof {
            assert(dv[i as int][0] == rows@[i as int]@[0]@);
            assert(dv[i as int][1] == rows@[i as int]@[1]@);
            assert(dv[i as int][2] == rows@[i as int]@[2]@);
            assert(rec.deep_view() =~= record_of_row(dv[i as int]));
        }
        let ghost prev = recs.deep_view();
        recs.push(rec);
        proof {
            assert(recs.deep_view().len() == prev.len() + 1);
            assert forall|k: int| 0 <= k < prev.len() implies recs.deep_view()[k] == prev[k] by {
                assert(recs@[k] == recs@.subrange(0, prev.len() as int)[k]);
            }
            assert(recs.deep_view()[prev.len() as int] == rec.deep_view());
            let goal = Seq::new(i as nat, |k: int| record_of_row(dv[k + 1]));
            assert(prev.len() == i - 1);
            assert forall|k: int| 0 <= k < i implies recs.deep_view()[k] == goal[k] by {
                assert(goal[k] == record_of_row(dv[k + 1]));
                if k < i - 1 {
                    assert(prev[k] == Seq::new((i - 1) as nat, |k2: int| record_of_row(
                        dv[k2 + 1],
                    ))[k]);
                } else {
                    assert(recs.deep_view()[k] == rec.deep_view());
                }
            }
            assert(recs.deep_view() =~= goal);
        }
        i = i + 1;
    }
    proof {
        assert(!(exists|k: int| 1 <= k < dv.len() && dv[k].len() != 3));
    }
    Ok(recs)
}

/// Decodes the rows of a price table into price records, as
/// `decode_price_rows` describes.
pub fn decode_prices(rows: &Vec<Vec<String>>) -> (r: Result<Vec<Price>, InputError>)
    ensures
        match r {
            Ok(ps) => decode_price_rows(rows.deep_view()) == Ok::<Seq<PriceView>, InputError>(
                ps.deep_view(),
            ),
            Err(e) => decode_price_rows(rows.deep_view()) == Err::<Seq<PriceView>, InputError>(e),
        },
{
    let ghost dv = rows.deep_view();
    proof {
        assert(dv.len() == rows@.len());
    }
    if rows.len() == 0 {
        return Err(InputError::MissingHeader);
    }
    if !row_is_price_header(&rows[0]) {
        proof {
            assert(dv[0] == rows@[0].deep_view());
        }
        return Err(InputError::BadHeader);
    }
    proof {
        assert(dv[0] == rows@[0].deep_view());
    }
    let mut ps: Vec<Price> = Vec::new();
    let mut i: usize = 1;
    while i < rows.len()
        invariant
            dv == rows.deep_view(),
            dv.len() == rows@.len(),
            1 <= i <= rows@.len(),
            dv[0] == price_header(),
            forall|k: int| 1 <= k < i ==> dv[k].len() == 4,
            ps.deep_view() =~= Seq::new((i - 1) as nat, |k: int| price_of_row(dv[k + 1])),
        decreases rows@.len() - i,
    {
        proof {
            assert(dv[i as int] == rows@[i as int].deep_view());
            assert(dv[i as int].len() == rows@[i as int]@.len());
        }
        if rows[i].len() != 4 {
            proof {
                assert(dv[i as int].len() != 4);
            }
            return Err(InputError::BadRow);
        }
        let p = Price {
            name: rows[i][0].clone(),
            url: rows[i][1].clone(),
            current: rows[i][2].clone(),
            usual: rows[i][3].clone(),
        };
        proof {
            assert(dv[i as int][0] == rows@[i as int]@[0]@);
            assert(dv[i as int][1] == rows@[i as int]@[1]@);
            assert(dv[i as int][2] == rows@[i as int]@[2]@);
            assert(dv[i as int][3] == rows@[i as int]@[3]@);
            assert(p.deep_view() =~= price_of_row(dv[i as int]));
        }
        let ghost prev = ps.deep_view();
        ps.push(p);
        proof {
            assert(ps.deep_view().len() == prev.len() + 1);
            assert forall|k: int| 0 <= k < prev.len() implies ps.deep_view()[k] == prev[k] by {
                assert(ps@[k] == ps@.subrange(0, prev.len() as int)[k]);
            }
            assert(ps.deep_view()[prev.len() as int] == p.deep_view());
            let goal = Seq::new(i as nat, |k: int| price_of_row(dv[k + 1]));
            assert(prev.len() == i - 1);
            assert forall|k: int| 0 <= k < i implies ps.deep_view()[k] == goal[k] by {
                assert(goal[k] == price_of_row(dv[k + 1]));
                if k < i - 1 {
                    assert(prev[k] == Seq::new((i - 1) as nat, |k2: int| price_of_row(
                        dv[k2 + 1],
                    ))[k]);
                } else {
                    assert(ps.deep_view()[k] == p.deep_view());
                }
            }
            assert(ps.deep_view() =~= goal);
        }
        i = i + 1;
    }
    proof {
        assert(!(exists|k: int| 1 <= k < dv.len() && dv[k].len() != 4));
    }
    Ok(ps)
}

/// Encodes price records as table rows, as `encode_price_rows` describes.
pub fn encode_prices(ps: &Vec<Price>) -> (r: Vec<Vec<String>>)
    ensures
        r.deep_view() == encode_price_rows(ps.deep_view()),
{
    let ghost pv = ps.deep_view();
    let mut header: Vec<String> = Vec::new();
    header.push(String::from_str("name"));
    header.push(String::from_str("url"));
    header.push(String::from_str("current"));
    header.push(String::from_str("usual"));
    proof {
        assert(header.deep_view() =~= price_header());
    }
    let mut rows: Vec<Vec<String>> = Vec::new();
    rows.push(header);
    let mut i: usize = 0;
    while i < ps.len()
        invariant
            pv == ps.deep_view(),
            pv.len() == ps@.len(),
            0 <= i <= ps@.len(),
            rows@.len() == i + 1,
            rows.deep_view()[0] == price_header(),
            forall|k: int| 0 <= k < i ==> rows.deep_view()[k + 1] == row_of_price(pv[k]),
        decreases ps@.len() - i,
    {
        let mut row: Vec<String> = Vec::new();
        row.push(ps[i].name.clone());
        row.push(ps[i].url.clone());
        row.push(ps[i].current.clone());
        row.push(ps[i].usual.clone());
        proof {
            assert(pv[i as int] == ps@[i as int].deep_view());
            assert(row.deep_view() =~= row_of_price(pv[i as int]));
        }
        rows.push(row);
        i = i + 1;
    }
    proof {
        assert(rows.deep_view() =~= encode_price_rows(pv));
    }
    rows
}

/// The rows that comma-separated text parses to, each row a list of fields;
/// `None` for text that is not well-formed. A function of the text alone.
pub uninterp spec fn csv_rows_of(text: Seq<char>) -> Option<Seq<Seq<Seq<char>>>>;

/// Relies on csv's `ReaderBuilder`, `Reader::records` and `StringRecord`:
/// parsing comma-separated text held in memory, with no header handling and
/// every row required to have the same number of fields, is a function of
/// the text alone.
#[verifier::external_body]
fn csv_parse(text: &str) -> (r: Option<Vec<Vec<String>>>)
    ensures
        r.deep_view() == csv_rows_of(text@),
{
    let mut reader = csv::ReaderBuilder::new().has_headers(false).from_reader(text.as_bytes());
    let mut rows: Vec<Vec<String>> = Vec::new();
    for record in reader.records() {
        match record {
            Ok(fields) => rows.push(fields.iter().map(|f| f.to_string()).collect()),
            Err(_) => return None,
        }
    }
    Some(rows)
}

/// The comma-separated text that encodes the given rows, one line per row.
/// A function of the rows alone.
pub uninterp spec fn csv_text_of(rows: Seq<Seq<Seq<char>>>) -> Seq<char>;

/// Relies on csv's `Writer` writing to an in-memory buffer: the encoded
/// text is a function of the rows alone. Rows of unequal width are refused
/// by the writer, and the empty string stands for them.
#[verifier::external_body]
fn csv_write(rows: &Vec<Vec<String>>) -> (r: String)
    ensures
        r@ == csv_text_of(rows.deep_view()),
{
    let mut writer = csv::Writer::from_writer(Vec::new());
    for row in rows {
        if writer.write_record(row).is_err() {
            return String::new();
        }
    }
    match writer.into_inner() {
        Ok(bytes) => String::from_utf8(bytes).unwrap_or_default(),
        Err(_) => String::new(),
    }
}

/// The records that the text of an input table holds, or the error that
/// reading it gives.
pub open spec fn input_table_spec(text: Seq<char>) -> Result<Seq<RecordView>, InputError> {
    match csv_rows_of(text) {
        Option::None => Err(InputError::Syntax),
        Option::Some(rows) => decode_input_rows(rows),
    }
}

/// The price records that the text of a price table holds, or the error
/// that reading it gives.
pub open spec fn price_table_spec(text: Seq<char>) -> Result<Seq<PriceView>, InputError> {
    match csv_rows_of(text) {
        Option::None => Err(InputError::Syntax),
        Option::Some(rows) => decode_price_rows(rows),
    }
}

/// The text of the price table that carries the given records.
pub open spec fn price_table_text(ps: Seq<PriceView>) -> Seq<char> {
    csv_text_of(encode_price_rows(ps))
}

/// Reads the text of an input table into records, as `input_table_spec`
/// describes.
pub fn read_input_table(text: &str) -> (r: Result<Vec<Record>, InputError>)
    ensures
        match r {
            Ok(recs) => input_table_spec(text@) == Ok::<Seq<RecordView>, InputError>(
                recs.deep_view(),
            ),
            Err(e) => input_table_spec(text@) == Err::<Seq<RecordView>, InputError>(e),
        },
{
    match csv_parse(text) {
        Option::None => Err(InputError::Syntax),
        Option::Some(rows) => decode_input(&rows),
    }
}

/// Reads the text of a price table into price records, as
/// `price_table_spec` describes.
pub fn read_price_table(text: &str) -> (r: Result<Vec<Price>, InputError>)
    ensures
        match r {
            Ok(ps) => price_table_spec(text@) == Ok::<Seq<PriceView>, InputError>(ps.deep_view()),
            Err(e) => price_table_spec(text@) == Err::<Seq<PriceView>, InputError>(e),
        },
{
    match csv_parse(text) {
        Option::None => Err(InputError::Syntax),
        Option::Some(rows) => decode_prices(&rows),
    }
}

/// Writes price records as the text of a price table: the header line
/// `name,url,current,usual`, then one line per record, in order.
pub fn write_price_table(ps: &Vec<Price>) -> (r: String)
    ensures
        r@ == price_table_text(ps.deep_view()),
{
    let rows = encode_prices(ps);
    csv_write(&rows)
}

} // verus!
