//! Rendering extracted tickers: each of a fixed set of variants takes a
//! bounded number of tickers, prefixes each with its character, and joins
//! them with single spaces under a constant header.

use vstd::prelude::*;

verus! {

use crate::extract::symbols_of;
use crate::extract::StockTicker;

/// One output variant: how many tickers to take and which prefix to render
/// them with.
pub struct TickerVariant {
    pub count: usize,
    pub prefix: char,
}

/// A symbol rendered for output: the prefix character directly followed by
/// the symbol's letters.
pub open spec fn rendered_token(prefix: char, symbol: Seq<char>) -> Seq<char> {
    seq![prefix] + symbol
}

/// The rendered symbols joined with single ASCII spaces.
pub open spec fn joined_tokens(symbols: Seq<Seq<char>>, prefix: char) -> Seq<char>
    decreases symbols.len(),
{
    if symbols.len() == 0 {
        Seq::empty()
    } else if symbols.len() == 1 {
        rendered_token(prefix, symbols[0])
    } else {
        rendered_token(prefix, symbols[0]) + seq![' '] + joined_tokens(symbols.drop_first(), prefix)
    }
}

/// The first `count` symbols, or all of them when fewer are available.
pub open spec fn taken(symbols: Seq<Seq<char>>, count: int) -> Seq<Seq<char>> {
    if count < symbols.len() {
        symbols.take(count)
    } else {
        symbols
    }
}

/// What formatting a ticker list yields: the first `count` symbols, each
/// prefixed, joined with single spaces.
pub open spec fn formatted_tickers(symbols: Seq<Seq<char>>, count: int, prefix: char) -> Seq<char> {
    joined_tokens(taken(symbols, count), prefix)
}

/// Relies on alloc's `String::push`: appends the given character to the end
/// of the string.
#[verifier::external_body]
fn push_char(s: &mut String, c: char)
    ensures
        final(s)@ == old(s)@.push(c),
{
    s.push(c);
}

/// Appending one more rendered symbol to a joined list adds a separating
/// space exactly when the list was not empty.
proof fn lemma_joined_tokens_push(symbols: Seq<Seq<char>>, prefix: char, symbol: Seq<char>)
    ensures
        joined_tokens(symbols.push(symbol), prefix) == if symbols.len() == 0 {
            rendered_token(prefix, symbol)
        } else {
            joined_tokens(symbols, prefix) + seq![' '] + rendered_token(prefix, symbol)
        },
    decreases symbols.len(),
{
    if symbols.len() == 0 {
        assert(symbols.push(symbol) =~= seq![symbol]);
    } else {
        lemma_joined_tokens_push(symbols.drop_first(), prefix, symbol);
        assert(symbols.push(symbol).drop_first() =~= symbols.drop_first().push(symbol));
        if symbols.len() == 1 {
            assert(joined_tokens(symbols.drop_first(), prefix) =~= Seq::<char>::empty());
        }
    }
}

/// Render the first `min(count, len)` tickers, each as the prefix directly
/// followed by the symbol, joined with single spaces. Never fails when
/// `count` exceeds the available tickers: it simply yields fewer items.
pub fn format_tickers(tickers: &Vec<StockTicker>, count: usize, prefix: char) -> (r: String)
    ensures
        r@ == formatted_tickers(symbols_of(tickers@), count as int, prefix),
{
    let ghost symbols = symbols_of(tickers@);
    let m: usize = if count < tickers.len() {
        count
    } else {
        tickers.len()
    };
    let mut r = String::new();
    let mut k: usize = 0;
    while k < m
        invariant
            k <= m <= tickers.len(),
            symbols == symbols_of(tickers@),
            r@ == joined_tokens(symbols.take(k as int), prefix),
        decreases m - k,
    {
        if k > 0 {
            push_char(&mut r, ' ');
        }
        push_char(&mut r, prefix);
        r.append(tickers[k].symbol.as_str());
        proof {
            lemma_joined_tokens_push(symbols.take(k as int), prefix, symbols[k as int]);
            assert(symbols.take(k as int).push(symbols[k as int]) =~= symbols.take(
                k as int + 1,
            ));
            assert(r@ =~= joined_tokens(symbols.take(k as int + 1), prefix));
        }
        k = k + 1;
    }
    proof {
        assert(symbols.take(m as int) =~= taken(symbols, count as int));
    }
    r
}

/// The constant header above every variant block: a title line, a blank
/// line, a promotional line, and a final blank line.
pub open spec fn header_text() -> Seq<char> {
    "📈 Big Movers of the day (ranked by today's price change)\n\nStart tracking these today using our free stock screener: https://base.report/screener?filter_key=IJQVaoxW\n\n"@
}

/// The constant header block.
pub fn format_header() -> (h: String)
    ensures
        h@ == header_text(),
{
    String::from_str(
        "📈 Big Movers of the day (ranked by today's price change)\n\nStart tracking these today using our free stock screener: https://base.report/screener?filter_key=IJQVaoxW\n\n",
    )
}

/// One output block: the header directly followed by the formatted tickers.
pub open spec fn block_text(symbols: Seq<Seq<char>>, count: int, prefix: char) -> Seq<char> {
    header_text() + formatted_tickers(symbols, count, prefix)
}

/// The separator between blocks: five newlines, four blank lines visually.
pub open spec fn separator_text() -> Seq<char> {
    "\n\n\n\n\n"@
}

/// The whole document: one block per variant, in the fixed order
/// (30, '$'), (4, '$'), (10, '#'), joined by the block separator.
pub open spec fn assembled_document(symbols: Seq<Seq<char>>) -> Seq<char> {
    block_text(symbols, 30, '$') + separator_text() + block_text(symbols, 4, '$')
        + separator_text() + block_text(symbols, 10, '#')
}

/// Counts beyond the available tickers change nothing: formatting with any
/// two counts at least the list's length yields the same text, with no
/// padding and no error.
pub proof fn lemma_format_count_saturates(
    symbols: Seq<Seq<char>>,
    count1: int,
    count2: int,
    prefix: char,
)
    requires
        count1 >= symbols.len(),
        count2 >= symbols.len(),
    ensures
        formatted_tickers(symbols, count1, prefix) == formatted_tickers(symbols, count2, prefix),
{
}

/// Formatting an empty ticker list yields the empty string, whatever the
/// count and the prefix.
pub proof fn lemma_format_empty(count: int, prefix: char)
    requires
        count >= 0,
    ensures
        formatted_tickers(Seq::empty(), count, prefix) == Seq::<char>::empty(),
{
    assert(taken(Seq::<Seq<char>>::empty(), count) =~= Seq::<Seq<char>>::empty());
}

/// The document assembled from no tickers still holds all three headers,
/// each block's ticker line empty, the blocks joined by the separator.
pub proof fn lemma_assemble_empty()
    ensures
        assembled_document(Seq::empty()) == header_text() + separator_text() + header_text()
            + separator_text() + header_text(),
{
    lemma_format_empty(30, '$');
    lemma_format_empty(4, '$');
    lemma_format_empty(10, '#');
    assert(assembled_document(Seq::empty()) =~= header_text() + separator_text() + header_text()
        + separator_text() + header_text());
}

/// One variant's block: the header directly followed by that variant's
/// formatted ticker list.
pub fn format_variant(tickers: &Vec<StockTicker>, variant: &TickerVariant) -> (r: String)
    ensures
        r@ == block_text(symbols_of(tickers@), variant.count as int, variant.prefix),
{
    let mut r = format_header();
    let line = format_tickers(tickers, variant.count, variant.prefix);
    r.append(line.as_str());
    r
}

/// Assemble the whole document: the three fixed variants' blocks, joined by
/// the five-newline separator.
pub fn format_multiple_variants(tickers: &Vec<StockTicker>) -> (r: String)
    ensures
        r@ == assembled_document(symbols_of(tickers@)),
{
    let first = TickerVariant { count: 30, prefix: '$' };
    let second = TickerVariant { count: 4, prefix: '$' };
    let third = TickerVariant { count: 10, prefix: '#' };
    let mut r = format_variant(tickers, &first);
    r.append("\n\n\n\n\n");
    let block = format_variant(tickers, &second);
    r.append(block.as_str());
    r.append("\n\n\n\n\n");
    let block = format_variant(tickers, &third);
    r.append(block.as_str());
    proof {
        assert(r@ =~= assembled_document(symbols_of(tickers@)));
    }
    r
}

} // verus!
