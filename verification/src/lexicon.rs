//! The sentiment lexicon: a read-only mapping from lowercase word to a
//! small signed weight, and the parser for its wire format (one
//! `word<TAB>score` entry per line; lines of any other shape are
//! skipped).

use vstd::prelude::*;
use vstd::string::StrSliceExecFns;

use crate::numbers::{parse_i8_str, spec_parse_i8};
use crate::text::{split_chars, split_on};

verus! {

struct LexEntry {
    word: String,
    score: i8,
}

/// A word-to-weight mapping. Insertion order decides ties: a later
/// entry for the same word wins, as when collecting into a hash map.
pub struct Lexicon {
    entries: Vec<LexEntry>,
}

spec fn map_of(es: Seq<LexEntry>) -> Map<Seq<char>, i8>
    decreases es.len(),
{
    if es.len() == 0 {
        Map::empty()
    } else {
        map_of(es.drop_last()).insert(es.last().word@, es.last().score)
    }
}

impl View for Lexicon {
    type V = Map<Seq<char>, i8>;

    closed spec fn view(&self) -> Map<Seq<char>, i8> {
        map_of(self.entries@)
    }
}

proof fn lemma_map_of_found(es: Seq<LexEntry>, i: int)
    requires
        0 <= i < es.len(),
        forall|j: int| i < j < es.len() ==> es[j].word@ != es[i].word@,
    ensures
        map_of(es).contains_key(es[i].word@),
        map_of(es)[es[i].word@] == es[i].score,
    decreases es.len(),
{
    if i == es.len() - 1 {
    } else {
        lemma_map_of_found(es.drop_last(), i);
    }
}

proof fn lemma_map_of_absent(es: Seq<LexEntry>, w: Seq<char>)
    requires
        forall|j: int| 0 <= j < es.len() ==> es[j].word@ != w,
    ensures
        !map_of(es).contains_key(w),
    decreases es.len(),
{
    if es.len() > 0 {
        lemma_map_of_absent(es.drop_last(), w);
    }
}

impl Lexicon {
    /// An empty lexicon.
    pub fn new() -> (r: Lexicon)
        ensures
            r@ == Map::<Seq<char>, i8>::empty(),
    {
        Lexicon { entries: Vec::new() }
    }

    /// Add one word with its weight; a word added twice keeps the
    /// later weight.
    pub fn insert(&mut self, word: String, score: i8)
        ensures
            final(self)@ == old(self)@.insert(word@, score),
    {
        proof {
            let ghost es = self.entries@;
            let ghost e = LexEntry { word, score };
            assert(es.push(e).drop_last() =~= es);
        }
        self.entries.push(LexEntry { word, score });
    }

    /// Look a word up; `Some` exactly for the words the lexicon holds.
    pub fn get(&self, word: &str) -> (r: Option<i8>)
        ensures
            self@.contains_key(word@) ==> r == Some(self@[word@]),
            !self@.contains_key(word@) ==> r is None,
    {
        let mut i: usize = self.entries.len();
        while i > 0
            invariant
                i <= self.entries@.len(),
                forall|j: int| i <= j < self.entries@.len() ==> self.entries@[j].word@ != word@,
            decreases i,
        {
            i = i - 1;
            if crate::text::str_eq(self.entries[i].word.as_str(), word) {
                proof {
                    lemma_map_of_found(self.entries@, i as int);
                }
                return Some(self.entries[i].score);
            }
        }
        proof {
            lemma_map_of_absent(self.entries@, word@);
        }
        None
    }

}

/// One trailing carriage return dropped, as `str::lines` does before a
/// newline.
pub open spec fn strip_cr(line: Seq<char>) -> Seq<char> {
    if line.len() > 0 && line.last() == '\r' {
        line.drop_last()
    } else {
        line
    }
}

/// What `str::lines` yields: segments between newlines, a carriage
/// return before each newline dropped, and no final empty segment.
pub open spec fn spec_lines(s: Seq<char>) -> Seq<Seq<char>> {
    let parts = split_on(s, '\n');
    let kept = if parts.last() == Seq::<char>::empty() {
        parts.drop_last()
    } else {
        parts
    };
    kept.map(
        |i: int, l: Seq<char>|
            if i < parts.len() - 1 {
                strip_cr(l)
            } else {
                l
            },
    )
}

/// The first `k` segments, each with a trailing carriage return
/// dropped.
spec fn stripped_seq(parts: Seq<Seq<char>>, k: int) -> Seq<Seq<char>> {
    parts.take(k).map(|_j: int, l: Seq<char>| strip_cr(l))
}

/// Split a string into its lines; mirrors `str::lines`.
fn lines_exec<'a>(s: &'a str) -> (r: Vec<&'a str>)
    ensures
        r.deep_view() == spec_lines(s@),
{
    let parts = split_chars(s, '\n');
    let total = parts.len();
    let mut out: Vec<&'a str> = Vec::new();
    let mut i: usize = 0;
    proof {
        assert(out.deep_view() =~= stripped_seq(parts.deep_view(), 0));
    }
    while i < total - 1
        invariant
            total == parts@.len(),
            total >= 1,
            parts.deep_view() == split_on(s@, '\n'),
            i <= total - 1,
            out.deep_view() == stripped_seq(parts.deep_view(), i as int),
        decreases total - i,
    {
        let p = parts[i];
        let m = p.unicode_len();
        let ghost pre = out.deep_view();
        proof {
            assert(parts.deep_view()[i as int] == parts@[i as int]@);
        }
        if m > 0 && p.get_char(m - 1) == '\r' {
            let stripped = p.substring_char(0, m - 1);
            proof {
                assert(stripped@ =~= strip_cr(p@));
            }
            out.push(stripped);
            proof {
                assert(out.deep_view() =~= pre.push(stripped@));
            }
        } else {
            proof {
                assert(p@ == strip_cr(p@));
            }
            out.push(p);
            proof {
                assert(out.deep_view() =~= pre.push(p@));
            }
        }
        proof {
            assert(out.deep_view() =~= stripped_seq(parts.deep_view(), i + 1));
        }
        i += 1;
    }
    let pl = parts[total - 1];
    proof {
        assert(parts.deep_view()[total - 1] == parts@[total - 1]@);
    }
    if pl.unicode_len() > 0 {
        let ghost pre = out.deep_view();
        out.push(pl);
        proof {
            let pd = parts.deep_view();
            assert(out.deep_view() =~= pre.push(pd.last()));
            assert(pd.last().len() > 0);
            assert(pd.last() != Seq::<char>::empty());
            assert(spec_lines(s@) =~= stripped_seq(pd, total - 1).push(pd.last()));
        }
    } else {
        proof {
            let pd = parts.deep_view();
            assert(pd.last() =~= Seq::<char>::empty());
            assert(spec_lines(s@) =~= stripped_seq(pd, total - 1));
        }
    }
    out
}

/// The entry one lexicon line contributes: the text before the first
/// tab as the word, the text between the first and second tab parsed
/// as the weight; `None` for a line of any other shape.
pub open spec fn line_entry(line: Seq<char>) -> Option<(Seq<char>, i8)> {
    let parts = split_on(line, '\t');
    if parts.len() >= 2 {
        match spec_parse_i8(parts[1]) {
            Some(sc) => Some((parts[0], sc)),
            None => None,
        }
    } else {
        None
    }
}

/// The mapping a sequence of lexicon lines builds, later lines winning.
pub open spec fn lex_from_lines(lines: Seq<Seq<char>>) -> Map<Seq<char>, i8>
    decreases lines.len(),
{
    if lines.len() == 0 {
        Map::empty()
    } else {
        let m = lex_from_lines(lines.drop_last());
        match line_entry(lines.last()) {
            Some(e) => m.insert(e.0, e.1),
            None => m,
        }
    }
}

/// The mapping a whole lexicon file builds.
pub open spec fn spec_parse_lexicon(s: Seq<char>) -> Map<Seq<char>, i8> {
    lex_from_lines(spec_lines(s))
}

/// Parse the lexicon wire format: one `word<TAB>integer_score` entry
/// per line; a line without a tab or with an unparsable score is
/// skipped and parsing goes on.
pub fn parse_string_to_hashmap(string: &str) -> (r: Lexicon)
    ensures
        r@ == spec_parse_lexicon(string@),
{
    let lines = lines_exec(string);
    let n = lines.len();
    let mut lex = Lexicon::new();
    let mut i: usize = 0;
    while i < n
        invariant
            n == lines@.len(),
            lines.deep_view() == spec_lines(string@),
            i <= n,
            lex@ == lex_from_lines(lines.deep_view().take(i as int)),
        decreases n - i,
    {
        let line = lines[i];
        proof {
            assert(lines.deep_view()[i as int] == lines@[i as int]@);
            assert(lines.deep_view().take(i + 1).drop_last() =~= lines.deep_view().take(
                i as int,
            ));
        }
        let parts = split_chars(line, '\t');
        if parts.len() >= 2 {
            proof {
                assert(parts.deep_view()[0] == parts@[0]@);
                assert(parts.deep_view()[1] == parts@[1]@);
            }
            match parse_i8_str(parts[1]) {
                Some(sc) => {
                    lex.insert(parts[0].to_owned(), sc);
                },
                None => {},
            }
        }
        i += 1;
    }
    proof {
        assert(lines.deep_view().take(n as int) =~= lines.deep_view());
    }
    lex
}

} // verus!
