//! The update pipeline: combine each input record with the outcome of its
//! page fetch, skip the rows whose fetch failed, and keep the rest in input
//! order. Fetching itself is network work and stays outside the library;
//! the pipeline takes each fetch's outcome as a plain value.
use vstd::prelude::*;

use crate::extract::extract_price;
use crate::extract::extracted_price;
use crate::extract::selector_is_valid;
use crate::extract::selector_ok;
use crate::table::Price;
use crate::table::PriceView;
use crate::table::Record;
use crate::table::RecordView;

verus! {

/// The command and its target path, read from the argument list.
pub struct Config {
    pub cmd: String,
    pub target: String,
}

/// The two-line usage message shown when arguments are missing.
pub open spec fn usage() -> Seq<char> {
    "fanatics update urls.csv > prices.csv\nfanatics readme prices.csv > README.md\n"@
}

/// The usage message, as `usage` describes.
pub fn usage_text() -> (r: &'static str)
    ensures
        r@ == usage(),
{
    "fanatics update urls.csv > prices.csv\nfanatics readme prices.csv > README.md\n"
}

impl Config {
    /// Reads the command and its target from the argument list: the program
    /// name first, then the command, then the target path. Fewer arguments
    /// than that give the usage message as the error.
    pub fn build(args: &[String]) -> (r: Result<Config, &'static str>)
        ensures
            args@.len() < 3 ==> (r matches Err(e) && e@ == usage()),
            args@.len() >= 3 ==> (r matches Ok(c) && c.cmd@ == args@[1]@ && c.target@
                == args@[2]@),
    {
        if args.len() < 3 {
            return Err(usage_text());
        }
        let cmd = args[1].clone();
        let target = args[2].clone();
        Ok(Config { cmd, target })
    }
}

/// What one input row gives: nothing when its fetch failed, else a price
/// row that keeps the record's `name` and `url` verbatim, carries the price
/// extracted from the fetched page as `current`, and passes the price on
/// record through as `usual`.
pub open spec fn row_output(rec: RecordView, page: Option<Seq<char>>, sel: Seq<char>) -> Option<
    PriceView,
> {
    match page {
        Option::None => Option::None,
        Option::Some(html) => Option::Some(
            PriceView {
                name: rec.name,
                url: rec.url,
                current: extracted_price(html, sel),
                usual: rec.price,
            },
        ),
    }
}

/// Combines one input record with its fetch outcome, as `row_output`
/// describes.
pub fn process_row(rec: Record, page: &Option<String>, sel: &str) -> (r: Option<Price>)
    requires
        selector_ok(sel@),
    ensures
        r.deep_view() == row_output(rec@, page.deep_view(), sel@),
{
    match page {
        Option::None => Option::None,
        Option::Some(html) => {
            let current = extract_price(html.as_str(), sel);
            Option::Some(Price { name: rec.name, url: rec.url, current, usual: rec.price })
        },
    }
}

/// The price rows that a run over all input rows emits: one per row whose
/// fetch succeeded, in input order, each as `row_output` describes; rows
/// whose fetch failed are skipped and the rows after them still processed.
pub open spec fn updated_rows(
    recs: Seq<RecordView>,
    pages: Seq<Option<Seq<char>>>,
    sel: Seq<char>,
) -> Seq<PriceView>
    decreases recs.len(),
{
    if recs.len() == 0 {
        Seq::empty()
    } else {
        let rest = updated_rows(recs.drop_first(), pages.drop_first(), sel);
        match row_output(recs.first(), pages.first(), sel) {
            Option::Some(p) => seq![p] + rest,
            Option::None => rest,
        }
    }
}

/// Processes every input row against its fetch outcome, as `updated_rows`
/// describes.
pub fn update_rows(recs: Vec<Record>, pages: &Vec<Option<String>>, sel: &str) -> (r: Vec<Price>)
    requires
        recs@.len() == pages@.len(),
        selector_ok(sel@),
    ensures
        r.deep_view() == updated_rows(recs.deep_view(), pages.deep_view(), sel@),
{
    let ghost rv = recs.deep_view();
    let ghost gv = pages.deep_view();
    let n = pages.len();
    proof {
        assert(rv.len() == recs@.len());
        assert(gv.len() == pages@.len());
        assert(rv.subrange(0, n as int) =~= rv);
        assert(gv.subrange(0, n as int) =~= gv);
    }
    let mut rest = recs;
    let mut out: Vec<Price> = Vec::new();
    let mut i: usize = 0;
    while i < n
        invariant
            rv.len() == n,
            gv.len() == n,
            gv == pages.deep_view(),
            0 <= i <= n,
            rest@.len() == n - i,
            rest.deep_view() =~= rv.subrange(i as int, n as int),
            updated_rows(rv, gv, sel@) =~= out.deep_view() + updated_rows(
                rv.subrange(i as int, n as int),
                gv.subrange(i as int, n as int),
                sel@,
            ),
            selector_ok(sel@),
        decreases n - i,
    {
        let ghost before = rest.deep_view();
        let rec = rest.remove(0);
        proof {
            assert(rec.deep_view() == before[0]);
        }
        proof {
            let cur_r = rv.subrange(i as int, n as int);
            let cur_g = gv.subrange(i as int, n as int);
            assert(cur_r.first() == rv[i as int]);
            assert(cur_g.first() == gv[i as int]);
            assert(cur_r.drop_first() =~= rv.subrange(i + 1, n as int));
            assert(cur_g.drop_first() =~= gv.subrange(i + 1, n as int));
        }
        let produced = process_row(rec, &pages[i], sel);
        proof {
            assert(pages[i as int].deep_view() == gv[i as int]);
        }
        match produced {
            Option::Some(p) => {
                let ghost prev = out.deep_view();
                out.push(p);
                proof {
                    assert(out.deep_view().len() == prev.len() + 1);
                    assert forall|k: int| 0 <= k < prev.len() implies out.deep_view()[k]
                        == prev[k] by {
                        assert(out@[k] == out@.subrange(0, prev.len() as int)[k]);
                    }
                    assert(out.deep_view()[prev.len() as int] == p.deep_view());
                    assert(out.deep_view() =~= prev.push(p.deep_view()));
                    assert(prev + (seq![p.deep_view()] + updated_rows(
                        rv.subrange(i + 1, n as int),
                        gv.subrange(i + 1, n as int),
                        sel@,
                    )) =~= out.deep_view() + updated_rows(
                        rv.subrange(i + 1, n as int),
                        gv.subrange(i + 1, n as int),
                        sel@,
                    ));
                }
            },
            Option::None => {},
        }
        proof {
            assert forall|k: int| 0 <= k < rest@.len() implies rest.deep_view()[k] == rv.subrange(
                i + 1,
                n as int,
            )[k] by {
                assert(rest.deep_view()[k] == rest@[k].deep_view());
                assert(before[k + 1] == rest@[k].deep_view());
                assert(before[k + 1] == rv.subrange(i as int, n as int)[k + 1]);
            }
            assert(rest.deep_view() =~= rv.subrange(i + 1, n as int));
        }
        i = i + 1;
    }
    proof {
        assert(updated_rows(rv.subrange(n as int, n as int), gv.subrange(n as int, n as int), sel@)
            =~= Seq::<PriceView>::empty());
        assert(out.deep_view() + Seq::<PriceView>::empty() =~= out.deep_view());
    }
    out
}

/// Runs the whole update step over pre-fetched pages, checking the selector
/// itself: `None` exactly when the selector text is not a valid CSS
/// selector.
pub fn run_update(recs: Vec<Record>, pages: &Vec<Option<String>>, sel: &str) -> (r: Option<
    Vec<Price>,
>)
    requires
        recs@.len() == pages@.len(),
    ensures
        r is None <==> !selector_ok(sel@),
        r matches Some(ps) ==> ps.deep_view() == updated_rows(
            recs.deep_view(),
            pages.deep_view(),
            sel@,
        ),
{
    if selector_is_valid(sel) {
        Some(update_rows(recs, pages, sel))
    } else {
        None
    }
}

/// A run never emits more rows than it was given: each input row yields at
/// most one output row.
pub proof fn lemma_output_count(
    recs: Seq<RecordView>,
    pages: Seq<Option<Seq<char>>>,
    sel: Seq<char>,
)
    ensures
        updated_rows(recs, pages, sel).len() <= recs.len(),
    decreases recs.len(),
{
    if recs.len() > 0 {
        lemma_output_count(recs.drop_first(), pages.drop_first(), sel);
    }
}

/// A row whose fetch failed leaves no trace: the run's output is exactly
/// the output of the run without that row, so the rows around it are still
/// processed, in order.
pub proof fn lemma_failed_row_skipped(
    recs: Seq<RecordView>,
    pages: Seq<Option<Seq<char>>>,
    sel: Seq<char>,
    i: int,
)
    requires
        recs.len() == pages.len(),
        0 <= i < pages.len(),
        pages[i] is None,
    ensures
        updated_rows(recs, pages, sel) == updated_rows(recs.remove(i), pages.remove(i), sel),
    decreases recs.len(),
{
    if i == 0 {
        assert(recs.remove(0) =~= recs.drop_first());
        assert(pages.remove(0) =~= pages.drop_first());
    } else {
        assert(recs.remove(i).first() == recs.first());
        assert(pages.remove(i).first() == pages.first());
        assert(recs.remove(i).drop_first() =~= recs.drop_first().remove(i - 1));
        assert(pages.remove(i).drop_first() =~= pages.drop_first().remove(i - 1));
        lemma_failed_row_skipped(recs.drop_first(), pages.drop_first(), sel, i - 1);
    }
}

/// When every fetch succeeds, the run emits one price row per input row, in
/// order; each keeps its record's `name` and `url` verbatim, sets `current`
/// to the price extracted from its page, and passes the record's price
/// through as `usual`.
pub proof fn lemma_all_fetched(recs: Seq<RecordView>, pages: Seq<Option<Seq<char>>>, sel: Seq<char>)
    requires
        recs.len() == pages.len(),
        forall|i: int| 0 <= i < pages.len() ==> pages[i] is Some,
    ensures
        updated_rows(recs, pages, sel).len() == recs.len(),
        forall|i: int|
            0 <= i < recs.len() ==> #[trigger] updated_rows(recs, pages, sel)[i] == (PriceView {
                name: recs[i].name,
                url: recs[i].url,
                current: extracted_price(pages[i]->0, sel),
                usual: recs[i].price,
            }),
    decreases recs.len(),
{
    if recs.len() > 0 {
        assert(pages[0] is Some);
        lemma_all_fetched(recs.drop_first(), pages.drop_first(), sel);
        let out = updated_rows(recs, pages, sel);
        let rest = updated_rows(recs.drop_first(), pages.drop_first(), sel);
        assert forall|i: int| 0 <= i < recs.len() implies #[trigger] out[i] == (PriceView {
            name: recs[i].name,
            url: recs[i].url,
            current: extracted_price(pages[i]->0, sel),
            usual: recs[i].price,
        }) by {
            if i > 0 {
                assert(out[i] == rest[i - 1]);
                assert(recs.drop_first()[i - 1] == recs[i]);
                assert(pages.drop_first()[i - 1] == pages[i]);
            }
        }
    }
}

} // verus!
