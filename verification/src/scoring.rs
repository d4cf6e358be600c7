//! Sentiment scoring: tokenize a review body into lowercase words by
//! splitting on the space character only, then average the lexicon
//! weights of the words the lexicon knows, truncating toward zero.

use vstd::arithmetic::div_mod::{lemma_div_by_multiple, lemma_div_is_ordered};
use vstd::prelude::*;

use crate::lexicon::Lexicon;
use crate::text::{lower_seq, split_chars, split_on, to_ascii_lower};

verus! {

/// The token sequence of a review body: the stretches between single
/// space characters, each ASCII-lowercased. Tabs and newlines do not
/// separate, and doubled spaces yield empty tokens, as the raw
/// pipeline always had it.
pub open spec fn spec_tokenize(s: Seq<char>) -> Seq<Seq<char>> {
    split_on(s, ' ').map(|_i: int, w: Seq<char>| lower_seq(w))
}

/// Split a review body on spaces and lowercase every token.
pub fn split_review_str(review: &str) -> (r: Vec<String>)
    ensures
        r.deep_view() == spec_tokenize(review@),
{
    let parts = split_chars(review, ' ');
    let n = parts.len();
    let mut out: Vec<String> = Vec::new();
    let mut i: usize = 0;
    proof {
        assert(out.deep_view() =~= spec_tokenize(review@).take(0));
    }
    while i < n
        invariant
            n == parts@.len(),
            parts.deep_view() == split_on(review@, ' '),
            i <= n,
            out.deep_view() == spec_tokenize(review@).take(i as int),
        decreases n - i,
    {
        proof {
            assert(parts.deep_view()[i as int] == parts@[i as int]@);
        }
        let ghost pre = out.deep_view();
        let low = to_ascii_lower(parts[i]);
        out.push(low);
        proof {
            assert(out.deep_view() =~= pre.push(low@));
            assert(out.deep_view() =~= spec_tokenize(review@).take(i + 1));
        }
        i += 1;
    }
    proof {
        assert(spec_tokenize(review@).take(n as int) =~= spec_tokenize(review@));
    }
    out
}

/// How many of the tokens the lexicon knows.
pub open spec fn match_count(tokens: Seq<Seq<char>>, lex: Map<Seq<char>, i8>) -> int
    decreases tokens.len(),
{
    if tokens.len() == 0 {
        0
    } else {
        match_count(tokens.drop_last(), lex) + if lex.contains_key(tokens.last()) {
            1int
        } else {
            0int
        }
    }
}

/// The sum of the weights of the tokens the lexicon knows.
pub open spec fn match_sum(tokens: Seq<Seq<char>>, lex: Map<Seq<char>, i8>) -> int
    decreases tokens.len(),
{
    if tokens.len() == 0 {
        0
    } else {
        match_sum(tokens.drop_last(), lex) + if lex.contains_key(tokens.last()) {
            lex[tokens.last()] as int
        } else {
            0int
        }
    }
}

/// Integer division truncating toward zero, as `/` does on Rust's
/// signed integers.
pub open spec fn trunc_div(a: int, b: int) -> int
    recommends
        b > 0,
{
    if a >= 0 {
        a / b
    } else {
        -((-a) / b)
    }
}

/// The sentiment score of a token sequence: 0 when the lexicon knows
/// none of the tokens, else the truncated average of the matched
/// weights.
pub open spec fn spec_score(tokens: Seq<Seq<char>>, lex: Map<Seq<char>, i8>) -> int {
    if match_count(tokens, lex) == 0 {
        0
    } else {
        trunc_div(match_sum(tokens, lex), match_count(tokens, lex))
    }
}

/// Score a tokenized review against the lexicon: the truncated average
/// of the matched weights, 0 when nothing matches.
pub fn check_sentiment(review_vec: Vec<String>, sentiment_map: &Lexicon) -> (r: i8)
    ensures
        r as int == spec_score(review_vec.deep_view(), sentiment_map@),
{
    let n = review_vec.len();
    let mut sum: i128 = 0;
    let mut count: u64 = 0;
    let mut i: usize = 0;
    let ghost toks = review_vec.deep_view();
    let ghost lex = sentiment_map@;
    proof {
        assert(toks.take(0) =~= Seq::<Seq<char>>::empty());
    }
    while i < n
        invariant
            n == review_vec@.len(),
            toks == review_vec.deep_view(),
            lex == sentiment_map@,
            i <= n,
            count == match_count(toks.take(i as int), lex),
            sum == match_sum(toks.take(i as int), lex),
            0 <= count <= i,
            -128 * count <= sum <= 127 * count,
        decreases n - i,
    {
        proof {
            assert(toks[i as int] == review_vec@[i as int]@);
            assert(toks.take(i + 1).drop_last() =~= toks.take(i as int));
            assert(toks.take(i + 1).last() == toks[i as int]);
        }
        let word = &review_vec[i];
        match sentiment_map.get(word.as_str()) {
            Some(sc) => {
                count = count + 1;
                sum = sum + sc as i128;
            },
            None => {},
        }
        i += 1;
    }
    proof {
        assert(toks.take(n as int) =~= toks);
    }
    if count == 0 {
        0
    } else {
        if sum >= 0 {
            let q = (sum as u128) / (count as u128);
            proof {
                lemma_div_is_ordered(sum as int, 127 * (count as int), count as int);
                lemma_div_by_multiple(127, count as int);
            }
            q as i8
        } else {
            let mag = (-sum) as u128;
            let q = mag / (count as u128);
            proof {
                lemma_div_is_ordered(mag as int, 128 * (count as int), count as int);
                lemma_div_by_multiple(128, count as int);
            }
            (-(q as i128)) as i8
        }
    }
}

} // verus!
