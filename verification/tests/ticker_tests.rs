use stock_tickers::extract::extract_tickers;
use stock_tickers::extract::StockTicker;
use stock_tickers::format::format_multiple_variants;
use stock_tickers::format::format_tickers;

fn create_test_tickers() -> Vec<StockTicker> {
    vec![
        StockTicker {
            symbol: String::from("AAPL"),
        },
        StockTicker {
            symbol: String::from("MSFT"),
        },
        StockTicker {
            symbol: String::from("GOOGL"),
        },
        StockTicker {
            symbol: String::from("AMZN"),
        },
        StockTicker {
            symbol: String::from("META"),
        },
    ]
}

#[test]
fn test_extract_tickers() {
    let input = "$AAPL $MSFT $GOOGL";
    let tickers = extract_tickers(input);
    assert_eq!(tickers[0].symbol, "AAPL");
    assert_eq!(tickers[1].symbol, "MSFT");
    assert_eq!(tickers[2].symbol, "GOOGL");
}

#[test]
fn test_format_tickers() {
    let tickers = create_test_tickers();
    let formatted = format_tickers(&tickers, 3, '$');
    assert_eq!(formatted, "$AAPL $MSFT $GOOGL");
}

#[test]
fn test_format_multiple_variants() {
    let tickers = create_test_tickers();
    let output = format_multiple_variants(&tickers);
    assert!(output.contains("$AAPL $MSFT $GOOGL $AMZN"));
    assert!(output.contains("#AAPL #MSFT #GOOGL"));
}
