use fanatics::extract::scrape;
use fanatics::pipeline::run_update;
use fanatics::pipeline::Config;
use fanatics::report::render_price_line;
use fanatics::report::report_from_table;
use fanatics::table::decode_input;
use fanatics::table::read_input_table;
use fanatics::table::read_price_table;
use fanatics::table::write_price_table;
use fanatics::table::InputError;
use fanatics::table::Price;
use fanatics::table::Record;

const SELECTOR: &str = "#ProductPrice-product span";

fn widget_price() -> Price {
    Price {
        name: "Widget".to_string(),
        url: "http://x/a".to_string(),
        current: "$15.00".to_string(),
        usual: "19.99".to_string(),
    }
}

#[test]
fn config_build_needs_three_args() {
    let args = vec!["fanatics".to_string(), "update".to_string()];
    let err = Config::build(&args).err().expect("too few arguments must be refused");
    assert_eq!(
        err,
        "fanatics update urls.csv > prices.csv\nfanatics readme prices.csv > README.md\n"
    );
}

#[test]
fn config_build_reads_command_and_target() {
    let args = vec![
        "fanatics".to_string(),
        "update".to_string(),
        "urls.csv".to_string(),
    ];
    let config = Config::build(&args).ok().expect("three arguments must be accepted");
    assert_eq!(config.cmd, "update");
    assert_eq!(config.target, "urls.csv");
}

#[test]
fn update_emits_widget_row() {
    let input = "name,url,price\nWidget,http://x/a,19.99\n";
    let records = read_input_table(input).expect("well-formed input table");
    assert_eq!(records.len(), 1);
    let html = "<html><body><div id=\"ProductPrice-product\"><span>$15.00</span></div></body></html>";
    let pages = vec![Some(html.to_string())];
    let prices = run_update(records, &pages, SELECTOR).expect("valid selector");
    assert_eq!(prices.len(), 1);
    assert_eq!(prices[0].name, "Widget");
    assert_eq!(prices[0].url, "http://x/a");
    assert_eq!(prices[0].current, "$15.00");
    assert_eq!(prices[0].usual, "19.99");
}

#[test]
fn failed_fetch_skips_row_and_keeps_the_rest() {
    let input = "name,url,price\nWidget,http://x/a,19.99\nGadget,http://x/b,5.00\n";
    let records = read_input_table(input).expect("well-formed input table");
    let html = "<div id=\"ProductPrice-product\"><span>$4.50</span></div>";
    let pages = vec![None, Some(html.to_string())];
    let prices = run_update(records, &pages, SELECTOR).expect("valid selector");
    assert_eq!(prices.len(), 1);
    assert_eq!(prices[0].name, "Gadget");
    assert_eq!(prices[0].url, "http://x/b");
    assert_eq!(prices[0].current, "$4.50");
    assert_eq!(prices[0].usual, "5.00");
}

#[test]
fn price_table_round_trips() {
    let prices = vec![
        widget_price(),
        Price {
            name: "Gadget, deluxe".to_string(),
            url: "http://x/b".to_string(),
            current: "".to_string(),
            usual: "5.00".to_string(),
        },
    ];
    let text = write_price_table(&prices);
    let back = read_price_table(&text).expect("a written table must read back");
    assert_eq!(back.len(), 2);
    for (a, b) in back.iter().zip(prices.iter()) {
        assert_eq!(a.name, b.name);
        assert_eq!(a.url, b.url);
        assert_eq!(a.current, b.current);
        assert_eq!(a.usual, b.usual);
    }
}

#[test]
fn empty_price_table_round_trips() {
    let prices: Vec<Price> = Vec::new();
    let text = write_price_table(&prices);
    assert_eq!(text, "name,url,current,usual\n");
    let back = read_price_table(&text).expect("a written table must read back");
    assert_eq!(back.len(), 0);
}

#[test]
fn extraction_is_idempotent() {
    let html = "<div id=\"ProductPrice-product\"><span> $15.00 </span></div>";
    let first = scrape(html, SELECTOR).expect("valid selector");
    let second = scrape(html, SELECTOR).expect("valid selector");
    assert_eq!(first, second);
}

#[test]
fn no_match_yields_empty_string() {
    let html = "<div id=\"other\"><span>$15.00</span></div>";
    let price = scrape(html, SELECTOR).expect("valid selector");
    assert_eq!(price, "");
}

#[test]
fn extraction_trims_whitespace() {
    let html = "<div id=\"ProductPrice-product\"><span>\n  $15.00\t </span></div>";
    let price = scrape(html, SELECTOR).expect("valid selector");
    assert_eq!(price, "$15.00");
}

#[test]
fn first_nonempty_match_wins() {
    let html = "<div id=\"ProductPrice-product\"><span></span><span>$9.99</span><span>$1.00</span></div>";
    let price = scrape(html, SELECTOR).expect("valid selector");
    assert_eq!(price, "$9.99");
}

#[test]
fn invalid_selector_is_refused() {
    let html = "<span>$15.00</span>";
    assert!(scrape(html, "###").is_none());
}

#[test]
fn readme_line_for_widget() {
    let line = render_price_line(&widget_price());
    assert_eq!(line, "- [Widget](http://x/a): $15.00 ($19.99)\n");
}

#[test]
fn report_has_heading_and_bullet() {
    let text = "name,url,current,usual\nWidget,http://x/a,$15.00,19.99\n";
    let report = report_from_table(text).expect("well-formed price table");
    assert_eq!(
        report,
        "# fanatics\n\nCurrent prices:\n\n- [Widget](http://x/a): $15.00 ($19.99)\n"
    );
}

#[test]
fn empty_text_has_no_header() {
    assert_eq!(read_input_table("").err(), Some(InputError::MissingHeader));
}

#[test]
fn wrong_header_is_refused() {
    let text = "a,b,c\n1,2,3\n";
    assert_eq!(read_input_table(text).err(), Some(InputError::BadHeader));
    let text = "name,url,current,usual\nWidget,http://x/a,$15.00,19.99\n";
    assert_eq!(read_input_table(text).err(), Some(InputError::BadHeader));
}

#[test]
fn ragged_text_is_a_syntax_error() {
    let text = "name,url,price\nWidget,http://x/a\n";
    assert_eq!(read_input_table(text).err(), Some(InputError::Syntax));
}

#[test]
fn short_row_is_refused() {
    let rows = vec![
        vec!["name".to_string(), "url".to_string(), "price".to_string()],
        vec!["Widget".to_string(), "http://x/a".to_string()],
    ];
    assert_eq!(decode_input(&rows).err(), Some(InputError::BadRow));
}

#[test]
fn quoted_fields_round_trip() {
    let records: Vec<Record> = read_input_table(
        "name,url,price\n\"Widget, large\",http://x/a,19.99\n",
    )
    .expect("quoted fields are well-formed");
    assert_eq!(records[0].name, "Widget, large");
    assert_eq!(records[0].url, "http://x/a");
    assert_eq!(records[0].price, "19.99");
}
