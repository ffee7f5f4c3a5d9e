//! The names of sources inside the names of strategies.

use vstd::prelude::*;
use vstd::string::*;

use crate::sim::strategies::monkey;
use crate::sim::strategies::monkey::DataSource;
use crate::text;
use crate::text::Text;

verus! {

/// The letters that the name of a source is made of.
spec fn spelled_with(s: DataSource, c: char) -> bool {
    match s {
        DataSource::BtcPrice => c == 'b' || c == 't' || c == 'c' || c == '_' || c == 'p' || c == 'r' || c == 'i' || c == 'e',
        DataSource::BtcDepth => c == 'b' || c == 't' || c == 'c' || c == '_' || c == 'd' || c == 'e' || c == 'p' || c == 'h',
        DataSource::BtcTrades => c == 'b' || c == 't' || c == 'c' || c == '_' || c == 'r' || c == 'a' || c == 'd' || c == 'e' || c == 's',
        DataSource::FvAnalytical => c == 'f' || c == 'v' || c == '_' || c == 'a' || c == 'n' || c == 'l' || c == 'y' || c == 't' || c == 'i' || c == 'c',
        DataSource::FvLstm => c == 'f' || c == 'v' || c == '_' || c == 'l' || c == 's' || c == 't' || c == 'm',
        DataSource::PolyBook => c == 'p' || c == 'o' || c == 'l' || c == 'y' || c == '_' || c == 'b' || c == 'k',
        DataSource::ZScore => c == 'z' || c == '_' || c == 's' || c == 'c' || c == 'o' || c == 'r' || c == 'e',
        DataSource::TradeImbalance => c == 't' || c == 'r' || c == 'a' || c == 'd' || c == 'e' || c == '_' || c == 'i' || c == 'm' || c == 'b' || c == 'l' || c == 'n' || c == 'c',
        DataSource::BookImbalance => c == 'b' || c == 'o' || c == 'k' || c == '_' || c == 'i' || c == 'm' || c == 'a' || c == 'l' || c == 'n' || c == 'c' || c == 'e',
        DataSource::Sigma => c == 's' || c == 'i' || c == 'g' || c == 'm' || c == 'a',
        DataSource::Tau => c == 't' || c == 'a' || c == 'u',
    }
}

proof fn lemma_small(k: int)
    requires
        0 <= k < 15,
    ensures
        k == 0 || k == 1 || k == 2 || k == 3 || k == 4 || k == 5 || k == 6 || k == 7 || k == 8 || k
            == 9 || k == 10 || k == 11 || k == 12 || k == 13 || k == 14,
{
}

proof fn lemma_letters(s: DataSource, k: int)
    requires
        0 <= k < monkey::label_of(s).len(),
    ensures
        spelled_with(s, monkey::label_of(s)[k]),
{
    reveal_strlit("btc_price");
    reveal_strlit("btc_depth");
    reveal_strlit("btc_trades");
    reveal_strlit("fv_analytical");
    reveal_strlit("fv_lstm");
    reveal_strlit("poly_book");
    reveal_strlit("z_score");
    reveal_strlit("trade_imbalance");
    reveal_strlit("book_imbalance");
    reveal_strlit("sigma");
    reveal_strlit("tau");
    lemma_small(k);
}

proof fn lemma_lengths(s: DataSource)
    ensures
        monkey::label_of(s).len() == (match s {
            DataSource::BtcPrice => 9int,
            DataSource::BtcDepth => 9int,
            DataSource::BtcTrades => 10int,
            DataSource::FvAnalytical => 13int,
            DataSource::FvLstm => 7int,
            DataSource::PolyBook => 9int,
            DataSource::ZScore => 7int,
            DataSource::TradeImbalance => 15int,
            DataSource::BookImbalance => 14int,
            DataSource::Sigma => 5int,
            DataSource::Tau => 3int,
        }),
{
    reveal_strlit("btc_price");
    reveal_strlit("btc_depth");
    reveal_strlit("btc_trades");
    reveal_strlit("fv_analytical");
    reveal_strlit("fv_lstm");
    reveal_strlit("poly_book");
    reveal_strlit("z_score");
    reveal_strlit("trade_imbalance");
    reveal_strlit("book_imbalance");
    reveal_strlit("sigma");
    reveal_strlit("tau");
}

/// A letter by which the name of `x` differs from that of `y`, where it is not longer: it
/// stands at this place and nowhere in the other.
spec fn telling_letter(x: DataSource, y: DataSource) -> (int, char) {
    match x {
        DataSource::BtcPrice => match y {
            DataSource::BtcDepth => (5, 'r'),
            DataSource::PolyBook => (1, 't'),
            _ => (4, 'p'),
        },
        DataSource::BtcDepth => (8, 'h'),
        DataSource::BtcTrades => (9, 's'),
        DataSource::FvAnalytical => (1, 'v'),
        DataSource::FvLstm => if y is FvAnalytical {
            (6, 'm')
        } else {
            (1, 'v')
        },
        DataSource::PolyBook => if y is FvAnalytical {
            (0, 'p')
        } else {
            (3, 'y')
        },
        DataSource::ZScore => (0, 'z'),
        DataSource::TradeImbalance => (0, 't'),
        DataSource::BookImbalance => (3, 'k'),
        DataSource::Sigma => (2, 'g'),
        DataSource::Tau => (2, 'u'),
    }
}

proof fn lemma_telling_letter(x: DataSource, y: DataSource)
    ensures
        0 <= telling_letter(x, y).0 < monkey::label_of(x).len(),
        monkey::label_of(x)[telling_letter(x, y).0] == telling_letter(x, y).1,
{
    reveal_strlit("btc_price");
    reveal_strlit("btc_depth");
    reveal_strlit("btc_trades");
    reveal_strlit("fv_analytical");
    reveal_strlit("fv_lstm");
    reveal_strlit("poly_book");
    reveal_strlit("z_score");
    reveal_strlit("trade_imbalance");
    reveal_strlit("book_imbalance");
    reveal_strlit("sigma");
    reveal_strlit("tau");
}

proof fn lemma_missing_letter(s: Text, pat: Text, i: int)
    requires
        0 <= i < pat.len(),
        forall|k: int| 0 <= k < s.len() ==> #[trigger] s[k] != pat[i],
    ensures
        !text::has_infix(s, pat),
{
    if text::has_infix(s, pat) {
        let at = choose|at: int| text::stands_at(s, pat, at);
        assert(s.subrange(at, at + pat.len())[i] == pat[i]);
        assert(s[at + i] == pat[i]);
    }
}

/// The names of the sources differ, and none stands inside another.
pub proof fn no_name_stands_in_another(x: DataSource, y: DataSource)
    ensures
        text::has_infix(monkey::label_of(y), monkey::label_of(x)) <==> x == y,
        x != y ==> monkey::label_of(x) != monkey::label_of(y),
{
    let inner = monkey::label_of(x);
    let outer = monkey::label_of(y);
    assert(outer.subrange(0, outer.len() as int) =~= outer);
    assert(text::stands_at(outer, outer, 0));
    if x != y {
        lemma_lengths(x);
        lemma_lengths(y);
        if inner.len() <= outer.len() {
            lemma_telling_letter(x, y);
            let (i, c) = telling_letter(x, y);
            assert forall|k: int| 0 <= k < outer.len() implies #[trigger] outer[k] != inner[i] by {
                lemma_letters(y, k);
            }
            lemma_missing_letter(outer, inner, i);
        } else if text::has_infix(outer, inner) {
            let at = choose|at: int| text::stands_at(outer, inner, at);
            assert(false);
        }
    }
}

/// No name holds a sign that the name of a strategy is put together with.
pub proof fn names_hold_no_sign(s: DataSource)
    ensures
        monkey::label_of(s).len() > 0,
        !monkey::label_of(s).contains('+'),
        !monkey::label_of(s).contains('['),
        !monkey::label_of(s).contains(']'),
{
    lemma_lengths(s);
    assert forall|k: int| 0 <= k < monkey::label_of(s).len() implies #[trigger] monkey::label_of(
        s,
    )[k] != '+' && monkey::label_of(s)[k] != '[' && monkey::label_of(s)[k] != ']' by {
        lemma_letters(s, k);
    }
}

proof fn lemma_split_at_sign(left: Text, sign: char, right: Text, pat: Text)
    requires
        !pat.contains(sign),
    ensures
        text::has_infix(left + seq![sign] + right, pat) <==> text::has_infix(left, pat)
            || text::has_infix(right, pat),
{
    let whole = left + seq![sign] + right;
    let n = pat.len() as int;
    if text::has_infix(whole, pat) {
        let at = choose|at: int| text::stands_at(whole, pat, at);
        assert(whole.subrange(at, at + n) == pat);
        if at + n <= left.len() {
            assert(left.subrange(at, at + n) =~= pat);
            assert(text::stands_at(left, pat, at));
        } else if at > left.len() {
            let to = at - left.len() - 1;
            assert(right.subrange(to, to + n) =~= pat);
            assert(text::stands_at(right, pat, to));
        } else {
            let i = left.len() - at;
            assert(whole.subrange(at, at + n)[i] == sign);
            assert(pat[i] == sign);
        }
    }
    if text::has_infix(left, pat) {
        let at = choose|at: int| text::stands_at(left, pat, at);
        assert(whole.subrange(at, at + n) =~= left.subrange(at, at + n));
        assert(text::stands_at(whole, pat, at));
    }
    if text::has_infix(right, pat) {
        let at = choose|at: int| text::stands_at(right, pat, at);
        let to = at + left.len() + 1;
        assert(whole.subrange(to, to + n) =~= right.subrange(at, at + n));
        assert(text::stands_at(whole, pat, to));
    }
}

proof fn lemma_nothing_in_nothing(pat: Text)
    requires
        pat.len() > 0,
    ensures
        !text::has_infix(Seq::empty(), pat),
{
    if text::has_infix(Seq::empty(), pat) {
        let at = choose|at: int| text::stands_at(Seq::empty(), pat, at);
        assert(false);
    }
}

proof fn lemma_joined_mentions(s: Seq<DataSource>, x: DataSource)
    ensures
        text::has_infix(monkey::joined(s), monkey::label_of(x)) <==> s.contains(x),
    decreases s.len(),
{
    names_hold_no_sign(x);
    if s.len() == 0 {
        lemma_nothing_in_nothing(monkey::label_of(x));
    } else {
        let last = s.last();
        no_name_stands_in_another(x, last);
        if s.len() == 1 {
            assert(s[0] == last);
            assert(s.contains(x) <==> x == last);
        } else {
            let fewer = s.drop_last();
            lemma_joined_mentions(fewer, x);
            reveal_strlit("+");
            assert("+"@ =~= seq!['+']);
            lemma_split_at_sign(
                monkey::joined(fewer),
                '+',
                monkey::label_of(last),
                monkey::label_of(x),
            );
            assert(s.contains(x) <==> fewer.contains(x) || x == last) by {
                if fewer.contains(x) {
                    assert(s[fewer.index_of(x)] == x);
                }
                if s.contains(x) {
                    let i = s.index_of(x);
                    if i < fewer.len() {
                        assert(fewer[i] == x);
                    }
                }
                assert(s[s.len() - 1] == last);
            }
        }
    }
}

proof fn lemma_not_in_monkey(x: DataSource)
    ensures
        !text::has_infix("monkey"@, monkey::label_of(x)),
{
    reveal_strlit("monkey");
    lemma_lengths(x);
    let name = monkey::label_of(x);
    if name.len() <= 6 {
        lemma_telling_letter(x, x);
        let (i, c) = telling_letter(x, x);
        assert forall|k: int| 0 <= k < "monkey"@.len() implies #[trigger] "monkey"@[k] != name[i] by {
            lemma_small(k);
        }
        lemma_missing_letter("monkey"@, name, i);
    } else if text::has_infix("monkey"@, name) {
        let at = choose|at: int| text::stands_at("monkey"@, name, at);
        assert(false);
    }
}

/// The name of a strategy speaks of exactly the sources that it looks at.
pub proof fn names_mention_their_sources(s: Seq<DataSource>, x: DataSource)
    ensures
        text::has_infix("monkey["@ + monkey::joined(s) + "]"@, monkey::label_of(x)) <==> s.contains(
            x,
        ),
{
    let pat = monkey::label_of(x);
    names_hold_no_sign(x);
    lemma_joined_mentions(s, x);
    lemma_not_in_monkey(x);
    lemma_nothing_in_nothing(pat);
    reveal_strlit("monkey[");
    reveal_strlit("monkey");
    reveal_strlit("]");
    let tail = monkey::joined(s) + seq![']'] + Seq::empty();
    lemma_split_at_sign(monkey::joined(s), ']', Seq::empty(), pat);
    lemma_split_at_sign("monkey"@, '[', tail, pat);
    assert("monkey["@ =~= "monkey"@ + seq!['[']);
    assert("]"@ =~= seq![']']);
    assert("monkey["@ + monkey::joined(s) + "]"@ =~= "monkey"@ + seq!['['] + tail);
}

} // verus!
