//! The reporter: render a previously written price table as a Markdown
//! document, a fixed heading block followed by one bullet per record.
use vstd::prelude::*;
use vstd::string::StringExecFns;

use crate::table::Price;
use crate::table::PriceView;
use crate::table::InputError;
use crate::table::price_table_spec;
use crate::table::read_price_table;

verus! {

/// The fixed heading block that every report starts with.
pub open spec fn report_header() -> Seq<char> {
    "# fanatics\n\nCurrent prices:\n\n"@
}

/// The bullet line for one price record:
/// `- [name](url): current ($usual)` and a line break.
pub open spec fn price_line(p: PriceView) -> Seq<char> {
    "- ["@ + p.name + "]("@ + p.url + "): "@ + p.current + " ($"@ + p.usual + ")\n"@
}

/// The bullet lines for the records, in order.
pub open spec fn report_lines(ps: Seq<PriceView>) -> Seq<char>
    decreases ps.len(),
{
    if ps.len() == 0 {
        Seq::empty()
    } else {
        price_line(ps.first()) + report_lines(ps.drop_first())
    }
}

/// The whole report for the records: the heading block, then the bullets.
pub open spec fn report_text(ps: Seq<PriceView>) -> Seq<char> {
    report_header() + report_lines(ps)
}

/// One more record extends the bullet lines at their end.
pub proof fn lemma_report_lines_push(ps: Seq<PriceView>, p: PriceView)
    ensures
        report_lines(ps.push(p)) == report_lines(ps) + price_line(p),
    decreases ps.len(),
{
    if ps.len() == 0 {
        assert(ps.push(p).first() == p);
        assert(ps.push(p).drop_first() =~= Seq::<PriceView>::empty());
        assert(report_lines(ps.push(p)) == price_line(p) + report_lines(Seq::<PriceView>::empty()));
        assert(report_lines(ps.push(p)) =~= price_line(p));
        assert(report_lines(ps) + price_line(p) =~= price_line(p));
    } else {
        assert(ps.push(p).first() == ps.first());
        assert(ps.push(p).drop_first() =~= ps.drop_first().push(p));
        lemma_report_lines_push(ps.drop_first(), p);
        assert(report_lines(ps.push(p)) =~= report_lines(ps) + price_line(p));
    }
}

/// Renders the bullet line for one record, as `price_line` describes.
pub fn render_price_line(p: &Price) -> (r: String)
    ensures
        r@ == price_line(p@),
{
    let mut r = String::from_str("- [");
    r.append(p.name.as_str());
    r.append("](");
    r.append(p.url.as_str());
    r.append("): ");
    r.append(p.current.as_str());
    r.append(" ($");
    r.append(p.usual.as_str());
    r.append(")\n");
    r
}

/// Renders the whole report for the records, as `report_text` describes.
pub fn render_report(ps: &Vec<Price>) -> (r: String)
    ensures
        r@ == report_text(ps.deep_view()),
{
    let ghost pv = ps.deep_view();
    let mut r = String::from_str("# fanatics\n\nCurrent prices:\n\n");
    let mut i: usize = 0;
    while i < ps.len()
        invariant
            pv == ps.deep_view(),
            pv.len() == ps@.len(),
            0 <= i <= ps@.len(),
            r@ == report_header() + report_lines(pv.subrange(0, i as int)),
        decreases ps@.len() - i,
    {
        let line = render_price_line(&ps[i]);
        r.append(line.as_str());
        proof {
            assert(pv[i as int] == ps@[i as int].deep_view());
            assert(pv.subrange(0, i as int).push(pv[i as int]) =~= pv.subrange(0, (i + 1) as int));
            lemma_report_lines_push(pv.subrange(0, i as int), pv[i as int]);
            assert((report_header() + report_lines(pv.subrange(0, i as int))) + price_line(
                pv[i as int],
            ) =~= report_header() + (report_lines(pv.subrange(0, i as int)) + price_line(
                pv[i as int],
            )));
        }
        i = i + 1;
    }
    proof {
        assert(pv.subrange(0, pv.len() as int) =~= pv);
    }
    r
}

/// Renders the report for the text of a price table: reads the table, then
/// renders its records; the errors are those of reading the table.
pub fn report_from_table(text: &str) -> (r: Result<String, InputError>)
    ensures
        match r {
            Ok(s) => (price_table_spec(text@) matches Ok(ps) && s@ == report_text(ps)),
            Err(e) => price_table_spec(text@) == Err::<Seq<PriceView>, InputError>(e),
        },
{
    match read_price_table(text) {
        Ok(ps) => Ok(render_report(&ps)),
        Err(e) => Err(e),
    }
}

} // verus!
