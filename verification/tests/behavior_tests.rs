use stock_tickers::build_document;
use stock_tickers::extract::extract_tickers;
use stock_tickers::extract::StockTicker;
use stock_tickers::format::format_header;
use stock_tickers::format::format_multiple_variants;
use stock_tickers::format::format_tickers;

const HEADER: &str = "\u{1F4C8} Big Movers of the day (ranked by today's price change)\n\nStart tracking these today using our free stock screener: https://base.report/screener?filter_key=IJQVaoxW\n\n";
const SEPARATOR: &str = "\n\n\n\n\n";

fn tickers_of(symbols: &[&str]) -> Vec<StockTicker> {
    symbols
        .iter()
        .map(|s| StockTicker {
            symbol: String::from(*s),
        })
        .collect()
}

#[test]
fn extraction_keeps_order_and_duplicates() {
    let tickers = extract_tickers("$AAPL $MSFT $GOOGL $AAPL");
    let symbols: Vec<&str> = tickers.iter().map(|t| t.symbol.as_str()).collect();
    assert_eq!(symbols, ["AAPL", "MSFT", "GOOGL", "AAPL"]);
}

#[test]
fn extraction_rejects_non_matches() {
    let tickers = extract_tickers("$aapl $123 $ $A");
    assert_eq!(tickers.len(), 1);
    assert_eq!(tickers[0].symbol, "A");
}

#[test]
fn extraction_edge_positions() {
    assert_eq!(extract_tickers("").len(), 0);
    assert_eq!(extract_tickers("$").len(), 0);
    assert_eq!(extract_tickers("A$").len(), 0);
    let at_end = extract_tickers("buy $TSLA");
    assert_eq!(at_end.len(), 1);
    assert_eq!(at_end[0].symbol, "TSLA");
}

#[test]
fn extraction_adjacent_and_doubled_dollars() {
    let doubled = extract_tickers("$$AAPL");
    assert_eq!(doubled.len(), 1);
    assert_eq!(doubled[0].symbol, "AAPL");
    let adjacent = extract_tickers("$AB$CD");
    let symbols: Vec<&str> = adjacent.iter().map(|t| t.symbol.as_str()).collect();
    assert_eq!(symbols, ["AB", "CD"]);
}

#[test]
fn extraction_stops_at_non_uppercase() {
    let tickers = extract_tickers("$ABc $DEf1 $GH2");
    let symbols: Vec<&str> = tickers.iter().map(|t| t.symbol.as_str()).collect();
    assert_eq!(symbols, ["AB", "DE", "GH"]);
}

#[test]
fn extraction_handles_multibyte_text() {
    let tickers = extract_tickers("\u{1F4C8} gains: $UP, losses: none");
    assert_eq!(tickers.len(), 1);
    assert_eq!(tickers[0].symbol, "UP");
}

#[test]
fn format_take_more_than_available() {
    let tickers = tickers_of(&["AAPL", "MSFT"]);
    let with_thirty = format_tickers(&tickers, 30, '$');
    let with_two = format_tickers(&tickers, 2, '$');
    assert_eq!(with_thirty, with_two);
    assert_eq!(with_thirty, "$AAPL $MSFT");
}

#[test]
fn format_count_zero_yields_empty() {
    let tickers = tickers_of(&["AAPL", "MSFT"]);
    assert_eq!(format_tickers(&tickers, 0, '$'), "");
}

#[test]
fn format_hash_prefix() {
    let tickers = tickers_of(&["AAPL"]);
    assert_eq!(format_tickers(&tickers, 1, '#'), "#AAPL");
}

#[test]
fn header_is_the_fixed_block() {
    assert_eq!(format_header(), HEADER);
}

#[test]
fn empty_input_still_yields_all_headers() {
    let tickers = extract_tickers("no mentions in this text");
    assert_eq!(tickers.len(), 0);
    assert_eq!(format_tickers(&tickers, 7, '$'), "");
    let output = format_multiple_variants(&tickers);
    let expected = format!(
        "{}{}{}{}{}",
        HEADER, SEPARATOR, HEADER, SEPARATOR, HEADER
    );
    assert_eq!(output, expected);
}

#[test]
fn document_is_exactly_three_blocks() {
    let output = build_document("$AB and $CD");
    let expected = format!(
        "{}$AB $CD{}{}$AB $CD{}{}#AB #CD",
        HEADER, SEPARATOR, HEADER, SEPARATOR, HEADER
    );
    assert_eq!(output, expected);
}

#[test]
fn pipeline_is_deterministic() {
    let input = "$AAPL up, $msft down, $TSLA flat \u{1F4C8}";
    let first = build_document(input);
    let second = build_document(input);
    assert_eq!(first.as_bytes(), second.as_bytes());
}
