//! Quote-stripping text sanitization: trim surrounding whitespace, then
//! peel matched layers of double quotes, then matched layers of single
//! quotes, re-trimming after each layer. The two quote styles are
//! deliberately handled one after the other, not interleaved.

use vstd::prelude::*;
use vstd::string::StrSliceExecFns;

use crate::text::{is_space, lemma_spec_trim_len, lemma_trim_idempotent, spec_trim, trim_slice};

verus! {

/// Peel matched leading/trailing layers of the quote character `q` off
/// `s`, re-trimming the remainder after each layer. A lone quote
/// character strips to the empty string.
pub open spec fn strip_layers(s: Seq<char>, q: char) -> Seq<char>
    decreases s.len(),
    via strip_layers_decreases
{
    if s.len() == 1 && s[0] == q {
        Seq::empty()
    } else if s.len() >= 2 && s[0] == q && s[s.len() - 1] == q {
        strip_layers(spec_trim(s.subrange(1, s.len() - 1)), q)
    } else {
        s
    }
}

#[via_fn]
proof fn strip_layers_decreases(s: Seq<char>, q: char) {
    if !(s.len() == 1 && s[0] == q) && s.len() >= 2 && s[0] == q && s[s.len() - 1] == q {
        lemma_spec_trim_len(s.subrange(1, s.len() - 1));
    }
}

/// What `trim_extra_quotes` returns: whitespace trimmed, then all outer
/// double-quote layers stripped, then all outer single-quote layers.
pub open spec fn spec_trim_extra_quotes(s: Seq<char>) -> Seq<char> {
    strip_layers(strip_layers(spec_trim(s), '"'), '\'')
}

/// One quote-peeling phase over a string slice.
fn strip_layers_exec<'a>(t0: &'a str, q: char) -> (r: &'a str)
    ensures
        r@ == strip_layers(t0@, q),
        !(r@.len() >= 1 && r@[0] == q && r@[r@.len() - 1] == q),
{
    let mut t: &'a str = t0;
    loop
        invariant
            strip_layers(t@, q) == strip_layers(t0@, q),
        decreases t@.len(),
    {
        let n = t.unicode_len();
        if n >= 1 && t.get_char(0) == q && t.get_char(n - 1) == q {
            if n == 1 {
                let empty = t.substring_char(0, 0);
                proof {
                    assert(empty@ =~= Seq::<char>::empty());
                    assert(strip_layers(empty@, q) == strip_layers(t@, q));
                }
                t = empty;
            } else {
                let inner = t.substring_char(1, n - 1);
                proof {
                    assert(inner@ =~= t@.subrange(1, t@.len() - 1));
                    lemma_spec_trim_len(inner@);
                }
                t = trim_slice(inner);
            }
        } else {
            proof {
                assert(strip_layers(t@, q) == t@);
            }
            return t;
        }
    }
}

/// Strip matched leading/trailing quote layers (double quotes first,
/// then single quotes) from a string, trimming whitespace as it goes.
/// It never fails.
pub fn trim_extra_quotes(s: &str) -> (r: String)
    ensures
        r@ == spec_trim_extra_quotes(s@),
{
    let t = trim_slice(s);
    let t = strip_layers_exec(t, '"');
    let t = strip_layers_exec(t, '\'');
    t.to_owned()
}

/// The result of a peeling phase never keeps a matched pair of outer
/// `q` quotes.
pub proof fn lemma_strip_layers_no_outer(s: Seq<char>, q: char)
    ensures
        ({
            let o = strip_layers(s, q);
            !(o.len() >= 1 && o[0] == q && o[o.len() - 1] == q)
        }),
    decreases s.len(),
{
    if s.len() == 1 && s[0] == q {
    } else if s.len() >= 2 && s[0] == q && s[s.len() - 1] == q {
        lemma_spec_trim_len(s.subrange(1, s.len() - 1));
        lemma_strip_layers_no_outer(spec_trim(s.subrange(1, s.len() - 1)), q);
    }
}

/// A peeling phase keeps a trimmed string trimmed.
pub proof fn lemma_strip_layers_trimmed(s: Seq<char>, q: char)
    requires
        spec_trim(s) == s,
    ensures
        spec_trim(strip_layers(s, q)) == strip_layers(s, q),
    decreases s.len(),
{
    if s.len() == 1 && s[0] == q {
        assert(spec_trim(Seq::<char>::empty()) =~= Seq::<char>::empty());
    } else if s.len() >= 2 && s[0] == q && s[s.len() - 1] == q {
        let inner = spec_trim(s.subrange(1, s.len() - 1));
        lemma_spec_trim_len(s.subrange(1, s.len() - 1));
        lemma_trim_idempotent(s.subrange(1, s.len() - 1));
        lemma_strip_layers_trimmed(inner, q);
    }
}

/// Sanitization is idempotent, except when stripping single-quote
/// layers has exposed a matched pair of outer double quotes (as in a
/// double-quoted string nested inside single quotes): those the first
/// pass leaves, and only a second pass would strip.
pub proof fn lemma_trim_extra_quotes_idempotent(s: Seq<char>)
    requires
        ({
            let r = spec_trim_extra_quotes(s);
            !(r.len() >= 1 && r[0] == '"' && r[r.len() - 1] == '"')
        }),
    ensures
        spec_trim_extra_quotes(spec_trim_extra_quotes(s)) == spec_trim_extra_quotes(s),
{
    let t0 = spec_trim(s);
    let r1 = strip_layers(t0, '"');
    let r = strip_layers(r1, '\'');
    lemma_trim_idempotent(s);
    lemma_strip_layers_trimmed(t0, '"');
    lemma_strip_layers_trimmed(r1, '\'');
    lemma_strip_layers_no_outer(r1, '\'');
    assert(strip_layers(r, '"') == r);
    assert(strip_layers(r, '\'') == r);
}

} // verus!
