//! The scanner: converts source text into the sequence of significant
//! tokens, by maximal munch over the catalog with first-declared tie-break,
//! discarding whitespace and comments, reporting unmatched characters as
//! ILLEGAL tokens, and closing the stream with a final EOF token.

use vstd::prelude::*;
use crate::tokens::Token;
use crate::matching::{
    best_match, best_match_at, is_space, lemma_best_match_bounds, lemma_space_best_match,
    space_run,
};

verus! {

/// Kind of an emitted token: a catalog kind, or one of the two sentinel
/// kinds that no catalog pattern matches — EOF at the end of the input and
/// ILLEGAL for a character no pattern matches.
#[derive(Debug, Clone, Copy, PartialEq, Eq, Structural)]
pub enum TokenClass {
    Catalog(Token),
    Eof,
    Illegal,
}

/// The sentinel lexeme of the EOF token, distinct from any valid lexeme.
pub const EOF_RAW: char = '\0';

/// A token emitted by the scanner: its kind, the exact characters consumed
/// (for EOF the sentinel lexeme, for ILLEGAL the single offending
/// character), and the position of the lexeme's first character.
#[derive(Debug, Clone, PartialEq)]
pub struct TokenInfo {
    pub kind: TokenClass,
    pub lexeme: Vec<char>,
    pub pos: usize,
}

/// The symbolic name of an emitted token's kind: the catalog name, or the
/// name of a sentinel.
pub open spec fn spec_class_name(c: TokenClass) -> Seq<char> {
    match c {
        TokenClass::Catalog(k) => crate::tokens::spec_name(k),
        TokenClass::Eof => "EOF"@,
        TokenClass::Illegal => "ILLEGAL"@,
    }
}

impl TokenClass {
    /// The symbolic name of this kind: the catalog name, or `EOF` and
    /// `ILLEGAL` for the two sentinels.
    pub fn get_name(&self) -> (r: &'static str)
        ensures
            r@ == spec_class_name(*self),
    {
        match self {
            TokenClass::Catalog(k) => k.get_name(),
            TokenClass::Eof => "EOF",
            TokenClass::Illegal => "ILLEGAL",
        }
    }
}

/// The mathematical value of an emitted token: kind, lexeme, position.
pub type SpecToken = (TokenClass, Seq<char>, int);

impl View for TokenInfo {
    type V = SpecToken;

    open spec fn view(&self) -> SpecToken {
        (self.kind, self.lexeme@, self.pos as int)
    }
}

/// One scanner step at position `i`: the token emitted and the cursor
/// position after it. Whitespace and comment matches are discarded and the
/// step continues behind them; at the end of the input the step yields the
/// EOF token and stays in place.
pub open spec fn scan_step(s: Seq<char>, i: int) -> (SpecToken, int)
    decreases s.len() - i,
        when 0 <= i <= s.len()
        via scan_step_dec
{
    if i >= s.len() {
        ((TokenClass::Eof, seq![EOF_RAW], i), i)
    } else {
        match best_match(s, i) {
            None => ((TokenClass::Illegal, seq![s[i]], i), i + 1),
            Some((k, l)) => if k == Token::WHITESPACE || k == Token::COMMENT {
                scan_step(s, i + l)
            } else {
                ((TokenClass::Catalog(k), s.subrange(i, i + l), i), i + l)
            },
        }
    }
}

#[via_fn]
proof fn scan_step_dec(s: Seq<char>, i: int) {
    if i < s.len() {
        lemma_best_match_bounds(s, i);
    }
}

/// A scanner step stays within the source, advances past at least one
/// character unless it emits EOF, and emits EOF exactly at the end.
pub proof fn lemma_scan_step_bounds(s: Seq<char>, i: int)
    requires
        0 <= i <= s.len(),
    ensures
        ({
            let (t, ni) = scan_step(s, i);
            &&& i <= ni <= s.len()
            &&& i <= t.2 <= s.len()
            &&& (t.0 != TokenClass::Eof ==> i < ni)
            &&& (t.0 == TokenClass::Eof <==> ni == s.len() && t.2 == s.len())
            &&& (t.0 == TokenClass::Eof ==> t.1 == seq![EOF_RAW] && ni == s.len())
        }),
    decreases s.len() - i,
{
    if i < s.len() {
        lemma_best_match_bounds(s, i);
        match best_match(s, i) {
            Some((k, l)) => {
                if k == Token::WHITESPACE || k == Token::COMMENT {
                    lemma_scan_step_bounds(s, i + l);
                }
            }
            None => {}
        }
    }
}

/// The full token sequence from position `i` on: the tokens each step
/// emits, up to and including the final EOF token.
pub open spec fn scan_tokens(s: Seq<char>, i: int) -> Seq<SpecToken>
    decreases s.len() - i,
        when 0 <= i <= s.len()
        via scan_tokens_dec
{
    let (t, ni) = scan_step(s, i);
    if t.0 == TokenClass::Eof {
        seq![t]
    } else {
        seq![t] + scan_tokens(s, ni)
    }
}

#[via_fn]
proof fn scan_tokens_dec(s: Seq<char>, i: int) {
    lemma_scan_step_bounds(s, i);
}

/// The scanning engine: an immutable source and a cursor that only moves
/// forward.
pub struct Scanner {
    src: Vec<char>,
    pos: usize,
}

impl Scanner {
    /// The source text under scan.
    pub closed spec fn src_view(&self) -> Seq<char> {
        self.src@
    }

    /// The current cursor position.
    pub closed spec fn cursor(&self) -> int {
        self.pos as int
    }

    /// The cursor never leaves the source.
    pub open spec fn wf(&self) -> bool {
        0 <= self.cursor() <= self.src_view().len()
    }

    /// A fresh scanner over `src`, with the cursor at the start.
    pub fn new(src: Vec<char>) -> (r: Scanner)
        ensures
            r.wf(),
            r.src_view() == src@,
            r.cursor() == 0,
    {
        Scanner { src, pos: 0 }
    }

    /// Emits the next significant token at the cursor and advances the
    /// cursor past it, as [`scan_step`] describes: whitespace and comments
    /// are skipped, an unmatched character becomes an ILLEGAL token consumed
    /// on its own, and at the end of the input the EOF token is emitted
    /// without moving, so the call is idempotent there.
    pub fn next_token(&mut self) -> (t: TokenInfo)
        requires
            old(self).wf(),
        ensures
            final(self).wf(),
            final(self).src_view() == old(self).src_view(),
            t@ == scan_step(old(self).src_view(), old(self).cursor()).0,
            final(self).cursor() == scan_step(old(self).src_view(), old(self).cursor()).1,
    {
        let ghost s0 = self.src@;
        let ghost p0 = self.pos as int;
        loop
            invariant
                self.wf(),
                self.src@ == s0,
                s0 == old(self).src_view(),
                p0 == old(self).cursor(),
                0 <= p0 <= s0.len(),
                scan_step(s0, p0) == scan_step(s0, self.pos as int),
            decreases s0.len() - self.pos,
        {
            if self.pos == self.src.len() {
                let mut lex: Vec<char> = Vec::new();
                lex.push(EOF_RAW);
                let t = TokenInfo { kind: TokenClass::Eof, lexeme: lex, pos: self.pos };
                proof {
                    assert(t@.1 =~= seq![EOF_RAW]);
                }
                return t;
            }
            proof {
                lemma_best_match_bounds(s0, self.pos as int);
            }
            match best_match_at(&self.src, self.pos) {
                None => {
                    let c = self.src[self.pos];
                    let mut lex: Vec<char> = Vec::new();
                    lex.push(c);
                    let t = TokenInfo { kind: TokenClass::Illegal, lexeme: lex, pos: self.pos };
                    proof {
                        assert(t@.1 =~= seq![s0[self.pos as int]]);
                    }
                    self.pos = self.pos + 1;
                    return t;
                }
                Some((k, l)) => {
                    if k == Token::WHITESPACE || k == Token::COMMENT {
                        let start = self.pos;
                        proof {
                            assert(scan_step(s0, start as int) == scan_step(s0, start + l));
                        }
                        self.pos = start + l;
                    } else {
                        let start = self.pos;
                        let lex = copy_range(&self.src, start, start + l);
                        self.pos = start + l;
                        let t = TokenInfo { kind: TokenClass::Catalog(k), lexeme: lex, pos: start };
                        return t;
                    }
                }
            }
        }
    }

    /// Scans the whole remaining input: the sequence of significant tokens
    /// from the cursor on, ending with — and including — the EOF token. The
    /// cursor ends at the end of the input; a fresh scanner must be
    /// constructed to scan again.
    pub fn tokenize_all(&mut self) -> (toks: Vec<TokenInfo>)
        requires
            old(self).wf(),
        ensures
            final(self).wf(),
            final(self).src_view() == old(self).src_view(),
            final(self).cursor() == old(self).src_view().len(),
            toks@.map_values(|t: TokenInfo| t@) == scan_tokens(
                old(self).src_view(),
                old(self).cursor(),
            ),
    {
        let ghost s0 = self.src@;
        let ghost p0 = self.pos as int;
        let mut toks: Vec<TokenInfo> = Vec::new();
        loop
            invariant
                self.wf(),
                self.src@ == s0,
                s0 == old(self).src_view(),
                p0 == old(self).cursor(),
                0 <= p0 <= s0.len(),
                scan_tokens(s0, p0) == toks@.map_values(|t: TokenInfo| t@) + scan_tokens(
                    s0,
                    self.pos as int,
                ),
            decreases s0.len() - self.pos,
        {
            let ghost cur = self.pos as int;
            let ghost prefix = toks@.map_values(|t: TokenInfo| t@);
            let t = self.next_token();
            proof {
                lemma_scan_step_bounds(s0, cur);
            }
            let is_eof = t.kind == TokenClass::Eof;
            let ghost tv = t@;
            toks.push(t);
            proof {
                assert(toks@.map_values(|t: TokenInfo| t@) =~= prefix.push(tv));
                assert(prefix.push(tv) =~= prefix + seq![tv]);
            }
            if is_eof {
                proof {
                    assert(scan_tokens(s0, cur) =~= seq![tv]);
                    assert(scan_tokens(s0, p0) =~= toks@.map_values(|t: TokenInfo| t@));
                }
                return toks;
            }
            proof {
                assert(scan_tokens(s0, cur) =~= seq![tv] + scan_tokens(s0, self.pos as int));
                assert(prefix + (seq![tv] + scan_tokens(s0, self.pos as int)) =~= (prefix
                    + seq![tv]) + scan_tokens(s0, self.pos as int));
            }
        }
    }
}

fn copy_range(src: &Vec<char>, a: usize, b: usize) -> (r: Vec<char>)
    requires
        a <= b <= src@.len(),
    ensures
        r@ == src@.subrange(a as int, b as int),
{
    let mut r: Vec<char> = Vec::new();
    let mut j: usize = a;
    while j < b
        invariant
            a <= j <= b,
            b <= src@.len(),
            r@ == src@.subrange(a as int, j as int),
        decreases b - j,
    {
        r.push(src[j]);
        proof {
            assert(r@ =~= src@.subrange(a as int, (j + 1) as int));
        }
        j += 1;
    }
    r
}

// ---------------------------------------------------------------------------
// Laws of the scanner
// ---------------------------------------------------------------------------

/// Source text that consists only of whitespace and comments: from position
/// `i` on, every match the scanner selects is a WHITESPACE or COMMENT match,
/// until the end of the input.
pub open spec fn trivia_only(s: Seq<char>, i: int) -> bool
    decreases s.len() - i,
        when 0 <= i <= s.len()
        via trivia_only_dec
{
    if i >= s.len() {
        true
    } else {
        match best_match(s, i) {
            Some((k, l)) => (k == Token::WHITESPACE || k == Token::COMMENT) && trivia_only(
                s,
                i + l,
            ),
            None => false,
        }
    }
}

#[via_fn]
proof fn trivia_only_dec(s: Seq<char>, i: int) {
    if i < s.len() {
        lemma_best_match_bounds(s, i);
    }
}

/// A source consisting only of whitespace and comments scans to exactly one
/// token, EOF; so does the empty source, for which `trivia_only` holds
/// vacuously.
pub proof fn lemma_trivia_only_scans_to_eof(s: Seq<char>, i: int)
    requires
        0 <= i <= s.len(),
        trivia_only(s, i),
    ensures
        scan_tokens(s, i) == seq![(TokenClass::Eof, seq![EOF_RAW], s.len() as int)],
    decreases s.len() - i,
{
    if i < s.len() {
        lemma_best_match_bounds(s, i);
        match best_match(s, i) {
            Some((k, l)) => {
                lemma_trivia_only_scans_to_eof(s, i + l);
                assert(scan_step(s, i) == scan_step(s, i + l));
            }
            None => {}
        }
    }
}

/// The token stream is never empty and carries exactly one EOF token, as
/// its last element: scanning stops at the first EOF, inclusive.
pub proof fn lemma_scan_tokens_shape(s: Seq<char>, i: int)
    requires
        0 <= i <= s.len(),
    ensures
        scan_tokens(s, i).len() >= 1,
        scan_tokens(s, i).last().0 == TokenClass::Eof,
        forall|t: int|
            0 <= t < scan_tokens(s, i).len() - 1 ==> (#[trigger] scan_tokens(s, i)[t]).0
                != TokenClass::Eof,
    decreases s.len() - i,
{
    lemma_scan_step_bounds(s, i);
    let (tok, ni) = scan_step(s, i);
    if tok.0 != TokenClass::Eof {
        lemma_scan_tokens_shape(s, ni);
        assert forall|t: int|
            0 <= t < scan_tokens(s, i).len() - 1 implies (#[trigger] scan_tokens(s, i)[t]).0
            != TokenClass::Eof by {
            if t > 0 {
                assert(scan_tokens(s, i)[t] == scan_tokens(s, ni)[t - 1]);
            }
        }
    }
}

/// A source made of whitespace characters alone consists only of trivia.
pub proof fn lemma_all_space_trivia(s: Seq<char>, i: int)
    requires
        0 <= i <= s.len(),
        forall|j: int| 0 <= j < s.len() ==> is_space(s[j]),
    ensures
        trivia_only(s, i),
    decreases s.len() - i,
{
    if i < s.len() {
        lemma_space_best_match(s, i);
        lemma_best_match_bounds(s, i);
        lemma_all_space_trivia(s, i + space_run(s, i));
    }
}

/// A source of whitespace characters alone — the empty source included —
/// scans to exactly one token, EOF.
pub proof fn lemma_whitespace_only_scans_to_eof(s: Seq<char>)
    requires
        forall|j: int| 0 <= j < s.len() ==> is_space(s[j]),
    ensures
        scan_tokens(s, 0) == seq![(TokenClass::Eof, seq![EOF_RAW], s.len() as int)],
{
    lemma_all_space_trivia(s, 0);
    lemma_trivia_only_scans_to_eof(s, 0);
}

/// Scanning is deterministic: two scans of identical input from identical
/// positions yield identical token sequences, so two independent scanners
/// over the same source produce the same stream.
pub proof fn lemma_tokenize_deterministic(
    toks1: Seq<SpecToken>,
    toks2: Seq<SpecToken>,
    s: Seq<char>,
    i: int,
)
    requires
        toks1 == scan_tokens(s, i),
        toks2 == scan_tokens(s, i),
    ensures
        toks1 == toks2,
{
}

} // verus!
