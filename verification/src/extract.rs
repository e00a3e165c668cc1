//! Scanning a text for ticker mentions: a `$` immediately followed by one or
//! more uppercase ASCII letters. The captured symbol is the maximal run of
//! uppercase letters after the `$`; matches are found left to right and do
//! not overlap.

use vstd::prelude::*;

verus! {

/// One extracted ticker symbol: an uppercase alphabetic string.
/// Duplicates are kept; order of appearance is the only invariant.
#[derive(Debug)]
pub struct StockTicker {
    pub symbol: String,
}

impl View for StockTicker {
    type V = Seq<char>;

    open spec fn view(&self) -> Seq<char> {
        self.symbol@
    }
}

/// The symbols of a sequence of tickers, in order.
pub open spec fn symbols_of(tickers: Seq<StockTicker>) -> Seq<Seq<char>> {
    tickers.map_values(|t: StockTicker| t@)
}

/// An uppercase ASCII letter, the only characters a symbol may hold.
pub open spec fn is_upper_letter(c: char) -> bool {
    'A' <= c && c <= 'Z'
}

/// A ticker mention starts at `i`: a `$` with an uppercase letter right after.
pub open spec fn ticker_starts_at(s: Seq<char>, i: int) -> bool {
    &&& 0 <= i
    &&& i + 1 < s.len()
    &&& s[i] == '$'
    &&& is_upper_letter(s[i + 1])
}

/// The index just past the maximal run of uppercase letters starting at `i`.
pub open spec fn upper_run_end(s: Seq<char>, i: int) -> int
    decreases s.len() - i when 0 <= i <= s.len()
{
    if i < s.len() && is_upper_letter(s[i]) {
        upper_run_end(s, i + 1)
    } else {
        i
    }
}

pub proof fn lemma_upper_run_end_bounds(s: Seq<char>, i: int)
    requires
        0 <= i <= s.len(),
    ensures
        i <= upper_run_end(s, i) <= s.len(),
    decreases s.len() - i,
{
    if i < s.len() && is_upper_letter(s[i]) {
        lemma_upper_run_end_bounds(s, i + 1);
    }
}

/// The symbols of the ticker mentions in `s` from position `i` on, in order
/// of appearance, scanning left to right past each captured run.
pub open spec fn extract_at(s: Seq<char>, i: int) -> Seq<Seq<char>>
    decreases s.len() - i when 0 <= i <= s.len() via extract_at_decreases
{
    if i >= s.len() {
        Seq::empty()
    } else if ticker_starts_at(s, i) {
        let j = upper_run_end(s, i + 1);
        seq![s.subrange(i + 1, j)] + extract_at(s, j)
    } else {
        extract_at(s, i + 1)
    }
}

#[via_fn]
proof fn extract_at_decreases(s: Seq<char>, i: int) {
    if 0 <= i < s.len() && ticker_starts_at(s, i) {
        lemma_upper_run_end_bounds(s, i + 1);
    }
}

/// The symbols of all ticker mentions in `s`, in order of appearance.
pub open spec fn extracted_tickers(s: Seq<char>) -> Seq<Seq<char>> {
    extract_at(s, 0)
}

/// No position of `s` starts a ticker mention.
pub open spec fn ticker_free(s: Seq<char>) -> bool {
    forall|i: int| !ticker_starts_at(s, i)
}

proof fn lemma_upper_run_end_is_run(s: Seq<char>, a: int, j: int)
    requires
        0 <= a <= j <= s.len(),
        forall|k: int| a <= k < j ==> is_upper_letter(s[k]),
        j == s.len() || !is_upper_letter(s[j]),
    ensures
        upper_run_end(s, a) == j,
    decreases j - a,
{
    if a < j {
        lemma_upper_run_end_is_run(s, a + 1, j);
    }
}

fn is_upper_char(c: char) -> (r: bool)
    ensures
        r == is_upper_letter(c),
{
    'A' <= c && c <= 'Z'
}

/// Scan `input` for ticker mentions and return them in order of appearance,
/// duplicates kept, the `$` not part of the stored symbol. A text without
/// mentions yields an empty list, never an error.
pub fn extract_tickers(input: &str) -> (tickers: Vec<StockTicker>)
    ensures
        symbols_of(tickers@) == extracted_tickers(input@),
{
    let ghost s = input@;
    let n: usize = input.unicode_len();
    let mut tickers: Vec<StockTicker> = Vec::new();
    let mut i: usize = 0;
    while i < n
        invariant
            s == input@,
            n == s.len(),
            i <= n,
            symbols_of(tickers@) + extract_at(s, i as int) == extracted_tickers(s),
        decreases n - i,
    {
        let starts = input.get_char(i) == '$' && i + 1 < n && is_upper_char(
            input.get_char(i + 1),
        );
        if starts {
            assert(ticker_starts_at(s, i as int));
            let mut j: usize = i + 1;
            loop
                invariant
                    s == input@,
                    n == s.len(),
                    i + 1 <= j <= n,
                    forall|k: int| i + 1 <= k < j ==> is_upper_letter(s[k]),
                ensures
                    i + 1 <= j <= n,
                    forall|k: int| i + 1 <= k < j ==> is_upper_letter(s[k]),
                    j == n || !is_upper_letter(s[j as int]),
                decreases n - j,
            {
                if j == n {
                    break;
                }
                if !is_upper_char(input.get_char(j)) {
                    break;
                }
                j = j + 1;
            }
            proof {
                lemma_upper_run_end_is_run(s, i + 1, j as int);
            }
            let symbol_str = input.substring_char(i + 1, j);
            let ticker = StockTicker { symbol: symbol_str.to_owned() };
            proof {
                assert(extract_at(s, i as int) == seq![s.subrange(i + 1, j as int)]
                    + extract_at(s, j as int));
                assert(symbols_of(tickers@.push(ticker)) =~= symbols_of(tickers@).push(
                    ticker@,
                ));
                assert(symbols_of(tickers@).push(ticker@) + extract_at(s, j as int)
                    =~= symbols_of(tickers@) + extract_at(s, i as int));
            }
            tickers.push(ticker);
            i = j;
        } else {
            proof {
                assert(!ticker_starts_at(s, i as int));
                assert(extract_at(s, i as int) == extract_at(s, i as int + 1));
            }
            i = i + 1;
        }
    }
    proof {
        assert(extract_at(s, n as int) =~= Seq::<Seq<char>>::empty());
        assert(symbols_of(tickers@) =~= symbols_of(tickers@) + extract_at(s, n as int));
    }
    tickers
}

/// A text without ticker mentions yields an empty extraction.
pub proof fn lemma_extract_ticker_free(s: Seq<char>)
    requires
        ticker_free(s),
    ensures
        extracted_tickers(s) == Seq::<Seq<char>>::empty(),
{
    lemma_extract_at_ticker_free(s, 0);
}

proof fn lemma_extract_at_ticker_free(s: Seq<char>, i: int)
    requires
        0 <= i <= s.len(),
        ticker_free(s),
    ensures
        extract_at(s, i) == Seq::<Seq<char>>::empty(),
    decreases s.len() - i,
{
    if i < s.len() {
        lemma_extract_at_ticker_free(s, i + 1);
    }
}

proof fn lemma_upper_run_chars(s: Seq<char>, a: int)
    requires
        0 <= a <= s.len(),
    ensures
        forall|k: int| a <= k < upper_run_end(s, a) ==> is_upper_letter(s[k]),
    decreases s.len() - a,
{
    lemma_upper_run_end_bounds(s, a);
    if a < s.len() && is_upper_letter(s[a]) {
        lemma_upper_run_chars(s, a + 1);
    }
}

/// Every symbol a ticker may hold: at least one character, all of them
/// uppercase ASCII letters.
pub open spec fn is_valid_symbol(symbol: Seq<char>) -> bool {
    &&& symbol.len() >= 1
    &&& forall|j: int| 0 <= j < symbol.len() ==> is_upper_letter(symbol[j])
}

/// Every extracted symbol is a nonempty run of uppercase ASCII letters.
pub proof fn lemma_extracted_tickers_valid(s: Seq<char>)
    ensures
        forall|k: int|
            0 <= k < extracted_tickers(s).len() ==> is_valid_symbol(extracted_tickers(s)[k]),
{
    lemma_extract_at_valid(s, 0);
}

proof fn lemma_extract_at_valid(s: Seq<char>, i: int)
    requires
        0 <= i <= s.len(),
    ensures
        forall|k: int| 0 <= k < extract_at(s, i).len() ==> is_valid_symbol(extract_at(s, i)[k]),
    decreases s.len() - i,
{
    if i >= s.len() {
    } else if ticker_starts_at(s, i) {
        let j = upper_run_end(s, i + 1);
        lemma_upper_run_end_bounds(s, i + 1);
        lemma_upper_run_chars(s, i + 1);
        lemma_extract_at_valid(s, j);
        assert(upper_run_end(s, i + 1) == upper_run_end(s, i + 2));
        lemma_upper_run_end_bounds(s, i + 2);
        let symbol = s.subrange(i + 1, j);
        assert(symbol.len() >= 1);
        assert(forall|k: int| 0 <= k < symbol.len() ==> is_upper_letter(symbol[k]));
        let e = extract_at(s, i);
        let rest = extract_at(s, j);
        assert(e == seq![symbol] + rest);
        assert forall|k: int| 0 <= k < e.len() implies is_valid_symbol(e[k]) by {
            if k == 0 {
                assert(e[k] == symbol);
            } else {
                assert((seq![symbol] + rest)[k] == rest[k - 1]);
                assert(e[k] == rest[k - 1]);
            }
        }
    } else {
        lemma_extract_at_valid(s, i + 1);
        assert(extract_at(s, i) == extract_at(s, i + 1));
        assert forall|k: int|
            0 <= k < extract_at(s, i).len() implies is_valid_symbol(extract_at(s, i)[k]) by {
            assert(extract_at(s, i)[k] == extract_at(s, i + 1)[k]);
        }
    }
}

} // verus!
