//! Pattern matching for the token catalog: for each catalog entry the length
//! of the maximal lexeme it matches at a given position of the source, and
//! the scanner's selection rule — longest match wins, and among matches of
//! equal length the entry declared first in the catalog wins.

use vstd::prelude::*;
use vstd::string::StrSliceExecFns;
use crate::tokens::{Token, catalog, patterns, CATALOG_LEN};

verus! {

// ---------------------------------------------------------------------------
// Character classes
// ---------------------------------------------------------------------------

/// A decimal digit, `0` through `9`.
pub open spec fn is_digit(c: char) -> bool {
    48 <= c as u32 && c as u32 <= 57
}

/// A character that may start an identifier: a letter or an underscore.
pub open spec fn is_id_start(c: char) -> bool {
    c == '_' || (97 <= c as u32 && c as u32 <= 122) || (65 <= c as u32 && c as u32 <= 90)
}

/// A character that may continue an identifier.
pub open spec fn is_id_cont(c: char) -> bool {
    is_id_start(c) || is_digit(c)
}

/// A whitespace character: space, tab, newline or carriage return.
pub open spec fn is_space(c: char) -> bool {
    c == ' ' || c == '\t' || c == '\n' || c == '\r'
}

fn digit_char(c: char) -> (b: bool)
    ensures
        b == is_digit(c),
{
    let u = c as u32;
    48 <= u && u <= 57
}

fn id_start_char(c: char) -> (b: bool)
    ensures
        b == is_id_start(c),
{
    let u = c as u32;
    c == '_' || (97 <= u && u <= 122) || (65 <= u && u <= 90)
}

fn id_cont_char(c: char) -> (b: bool)
    ensures
        b == is_id_cont(c),
{
    id_start_char(c) || digit_char(c)
}

fn space_char(c: char) -> (b: bool)
    ensures
        b == is_space(c),
{
    c == ' ' || c == '\t' || c == '\n' || c == '\r'
}

// ---------------------------------------------------------------------------
// Maximal runs of a character class, for the greedy sub-patterns
// ---------------------------------------------------------------------------

/// Length of the maximal run of digits starting at `i`.
pub open spec fn digit_run(s: Seq<char>, i: int) -> nat
    decreases s.len() - i,
{
    if 0 <= i < s.len() && is_digit(s[i]) {
        (1 + digit_run(s, i + 1)) as nat
    } else {
        0
    }
}

/// Length of the maximal run of identifier-continuation characters at `i`.
pub open spec fn id_cont_run(s: Seq<char>, i: int) -> nat
    decreases s.len() - i,
{
    if 0 <= i < s.len() && is_id_cont(s[i]) {
        (1 + id_cont_run(s, i + 1)) as nat
    } else {
        0
    }
}

/// Length of the maximal run of whitespace characters at `i`.
pub open spec fn space_run(s: Seq<char>, i: int) -> nat
    decreases s.len() - i,
{
    if 0 <= i < s.len() && is_space(s[i]) {
        (1 + space_run(s, i + 1)) as nat
    } else {
        0
    }
}

/// Length of the maximal run of characters other than a newline at `i`:
/// the body of a comment.
pub open spec fn noneol_run(s: Seq<char>, i: int) -> nat
    decreases s.len() - i,
{
    if 0 <= i < s.len() && s[i] != '\n' {
        (1 + noneol_run(s, i + 1)) as nat
    } else {
        0
    }
}

/// Position of the first occurrence of the quote `q` at or after `i`, if any:
/// where a string literal opened before `i` closes.
pub open spec fn close_at(s: Seq<char>, i: int, q: char) -> Option<int>
    decreases s.len() - i,
{
    if i < 0 || i >= s.len() {
        None
    } else if s[i] == q {
        Some(i)
    } else {
        close_at(s, i + 1, q)
    }
}

proof fn lemma_digit_run_le(s: Seq<char>, i: int)
    requires
        0 <= i <= s.len(),
    ensures
        i + digit_run(s, i) <= s.len(),
    decreases s.len() - i,
{
    if i < s.len() && is_digit(s[i]) {
        lemma_digit_run_le(s, i + 1);
    }
}

proof fn lemma_id_cont_run_le(s: Seq<char>, i: int)
    requires
        0 <= i <= s.len(),
    ensures
        i + id_cont_run(s, i) <= s.len(),
    decreases s.len() - i,
{
    if i < s.len() && is_id_cont(s[i]) {
        lemma_id_cont_run_le(s, i + 1);
    }
}

proof fn lemma_space_run_le(s: Seq<char>, i: int)
    requires
        0 <= i <= s.len(),
    ensures
        i + space_run(s, i) <= s.len(),
    decreases s.len() - i,
{
    if i < s.len() && is_space(s[i]) {
        lemma_space_run_le(s, i + 1);
    }
}

proof fn lemma_noneol_run_le(s: Seq<char>, i: int)
    requires
        0 <= i <= s.len(),
    ensures
        i + noneol_run(s, i) <= s.len(),
    decreases s.len() - i,
{
    if i < s.len() && s[i] != '\n' {
        lemma_noneol_run_le(s, i + 1);
    }
}

proof fn lemma_close_at_bounds(s: Seq<char>, i: int, q: char)
    requires
        0 <= i,
    ensures
        close_at(s, i, q) matches Some(j) ==> i <= j < s.len() && s[j] == q,
    decreases s.len() - i,
{
    if i < s.len() && s[i] != q {
        lemma_close_at_bounds(s, i + 1, q);
    }
}

// ---------------------------------------------------------------------------
// Literal entries
// ---------------------------------------------------------------------------

/// The exact spelling of each literal catalog entry: the operators, the
/// punctuation, the keywords and the movement commands. The six entries whose
/// patterns are genuine regular expressions (STRING, FLOAT, INTEGER,
/// WHITESPACE, COMMENT, ID) have no spelling.
pub open spec fn lit_spelling(k: Token) -> Option<Seq<char>> {
    match k {
        Token::PLUS => Some("+"@),
        Token::MINUS => Some("-"@),
        Token::MUL => Some("*"@),
        Token::DIV => Some("/"@),
        Token::MODULO => Some("%"@),
        Token::LPAREN => Some("("@),
        Token::RPAREN => Some(")"@),
        Token::AND => Some("&&"@),
        Token::OR => Some("||"@),
        Token::XOR => Some("^"@),
        Token::NOT => Some("!"@),
        Token::SEMI => Some(";"@),
        Token::COMMA => Some(","@),
        Token::LBRACE => Some("{"@),
        Token::RBRACE => Some("}"@),
        Token::LSQUARE => Some("["@),
        Token::RSQUARE => Some("]"@),
        Token::EQUAL => Some("=="@),
        Token::NOTEQ => Some("!="@),
        Token::INFERIOR => Some("<"@),
        Token::SUPERIOR => Some(">"@),
        Token::INFERIOREQ => Some("<="@),
        Token::SUPERIOREQ => Some(">="@),
        Token::ASSIGN => Some("="@),
        Token::TRUE => Some("true"@),
        Token::FALSE => Some("false"@),
        Token::VAR => Some("var"@),
        Token::FUNCTION => Some("function"@),
        Token::IF => Some("if"@),
        Token::WHILE => Some("while"@),
        Token::ELSE => Some("else"@),
        Token::RETURN => Some("return"@),
        Token::NAN => Some("nan"@),
        Token::PRINT => Some("print"@),
        Token::MOVE_UP => Some("MoveUp"@),
        Token::MOVE_DOWN => Some("MoveDown"@),
        Token::MOVE_LEFT => Some("MoveLeft"@),
        Token::MOVE_RIGHT => Some("MoveRight"@),
        _ => None,
    }
}

fn lit_str(k: Token) -> (r: Option<&'static str>)
    ensures
        r is Some <==> lit_spelling(k) is Some,
        r matches Some(p) ==> lit_spelling(k) == Some(p@),
{
    match k {
        Token::PLUS => Some("+"),
        Token::MINUS => Some("-"),
        Token::MUL => Some("*"),
        Token::DIV => Some("/"),
        Token::MODULO => Some("%"),
        Token::LPAREN => Some("("),
        Token::RPAREN => Some(")"),
        Token::AND => Some("&&"),
        Token::OR => Some("||"),
        Token::XOR => Some("^"),
        Token::NOT => Some("!"),
        Token::SEMI => Some(";"),
        Token::COMMA => Some(","),
        Token::LBRACE => Some("{"),
        Token::RBRACE => Some("}"),
        Token::LSQUARE => Some("["),
        Token::RSQUARE => Some("]"),
        Token::EQUAL => Some("=="),
        Token::NOTEQ => Some("!="),
        Token::INFERIOR => Some("<"),
        Token::SUPERIOR => Some(">"),
        Token::INFERIOREQ => Some("<="),
        Token::SUPERIOREQ => Some(">="),
        Token::ASSIGN => Some("="),
        Token::TRUE => Some("true"),
        Token::FALSE => Some("false"),
        Token::VAR => Some("var"),
        Token::FUNCTION => Some("function"),
        Token::IF => Some("if"),
        Token::WHILE => Some("while"),
        Token::ELSE => Some("else"),
        Token::RETURN => Some("return"),
        Token::NAN => Some("nan"),
        Token::PRINT => Some("print"),
        Token::MOVE_UP => Some("MoveUp"),
        Token::MOVE_DOWN => Some("MoveDown"),
        Token::MOVE_LEFT => Some("MoveLeft"),
        Token::MOVE_RIGHT => Some("MoveRight"),
        _ => None,
    }
}

proof fn lemma_lit_spelling_len(k: Token)
    ensures
        lit_spelling(k) matches Some(p) ==> 1 <= p.len() && !is_space(p[0]),
{
    reveal_strlit("+");
    reveal_strlit("-");
    reveal_strlit("*");
    reveal_strlit("/");
    reveal_strlit("%");
    reveal_strlit("(");
    reveal_strlit(")");
    reveal_strlit("&&");
    reveal_strlit("||");
    reveal_strlit("^");
    reveal_strlit("!");
    reveal_strlit(";");
    reveal_strlit(",");
    reveal_strlit("{");
    reveal_strlit("}");
    reveal_strlit("[");
    reveal_strlit("]");
    reveal_strlit("==");
    reveal_strlit("!=");
    reveal_strlit("<");
    reveal_strlit(">");
    reveal_strlit("<=");
    reveal_strlit(">=");
    reveal_strlit("=");
    reveal_strlit("true");
    reveal_strlit("false");
    reveal_strlit("var");
    reveal_strlit("function");
    reveal_strlit("if");
    reveal_strlit("while");
    reveal_strlit("else");
    reveal_strlit("return");
    reveal_strlit("nan");
    reveal_strlit("print");
    reveal_strlit("MoveUp");
    reveal_strlit("MoveDown");
    reveal_strlit("MoveLeft");
    reveal_strlit("MoveRight");
}

/// Whether the exact spelling `p` stands at position `i` of `s`; a literal
/// entry matches nothing shorter or longer.
pub open spec fn lit_match(p: Seq<char>, s: Seq<char>, i: int) -> Option<nat> {
    if 0 <= i && i + p.len() <= s.len() && s.subrange(i, i + p.len()) == p {
        Some(p.len())
    } else {
        None
    }
}

fn match_lit(p: &str, src: &Vec<char>, i: usize) -> (r: Option<usize>)
    requires
        i <= src@.len(),
    ensures
        opt_len_view(r) == lit_match(p@, src@, i as int),
{
    let n = p.unicode_len();
    if n > src.len() - i {
        return None;
    }
    let mut j: usize = 0;
    while j < n
        invariant
            j <= n,
            i + n <= src@.len(),
            src@.len() <= usize::MAX,
            n == p@.len(),
            forall|t: int| 0 <= t < j ==> src@[i + t] == p@[t],
        decreases n - j,
    {
        if src[i + j] != p.get_char(j) {
            proof {
                assert(src@.subrange(i as int, i + n as int)[j as int] == src@[i + j]);
            }
            return None;
        }
        j += 1;
    }
    proof {
        assert(src@.subrange(i as int, i + n as int) =~= p@);
    }
    Some(n)
}

// ---------------------------------------------------------------------------
// Match length of each catalog entry
// ---------------------------------------------------------------------------

/// Length of a string literal at `i`: an opening quote, the characters up to
/// the first closing quote of the same style, and that closing quote. No
/// escape processing: an embedded quote of the same style ends the literal.
pub open spec fn string_match_len(s: Seq<char>, i: int) -> Option<nat> {
    if 0 <= i < s.len() && (s[i] == '"' || s[i] == '\'') {
        match close_at(s, i + 1, s[i]) {
            Some(j) => Some((j - i + 1) as nat),
            None => None,
        }
    } else {
        None
    }
}

/// Length of a floating-point literal at `i`: a maximal run of digits, a
/// dot, and a further maximal run of digits, both runs non-empty.
pub open spec fn float_match_len(s: Seq<char>, i: int) -> Option<nat> {
    let a = digit_run(s, i);
    if a > 0 && i + a < s.len() && s[i + a] == '.' && digit_run(s, i + a + 1) > 0 {
        Some((a + 1 + digit_run(s, i + a + 1)) as nat)
    } else {
        None
    }
}

/// The length of the maximal lexeme that catalog entry `k` matches at
/// position `i` of `s`, or `None` when `k` matches nothing there.
pub open spec fn entry_match_len(k: Token, s: Seq<char>, i: int) -> Option<nat> {
    match k {
        Token::STRING => string_match_len(s, i),
        Token::FLOAT => float_match_len(s, i),
        Token::INTEGER => if digit_run(s, i) > 0 {
            Some(digit_run(s, i))
        } else {
            None
        },
        Token::WHITESPACE => if space_run(s, i) > 0 {
            Some(space_run(s, i))
        } else {
            None
        },
        Token::COMMENT => if 0 <= i < s.len() && s[i] == '#' {
            Some((1 + noneol_run(s, i + 1)) as nat)
        } else {
            None
        },
        Token::ID => if 0 <= i < s.len() && is_id_start(s[i]) {
            Some((1 + id_cont_run(s, i + 1)) as nat)
        } else {
            None
        },
        _ => match lit_spelling(k) {
            Some(p) => lit_match(p, s, i),
            None => None,
        },
    }
}

/// An executable match length as its mathematical value.
pub open spec fn opt_len_view(r: Option<usize>) -> Option<nat> {
    match r {
        Some(l) => Some(l as nat),
        None => None,
    }
}

/// Every match is non-empty and stays within the source.
pub proof fn lemma_entry_match_bounds(k: Token, s: Seq<char>, i: int)
    requires
        0 <= i <= s.len(),
    ensures
        entry_match_len(k, s, i) matches Some(l) ==> 1 <= l && i + l <= s.len(),
{
    match k {
        Token::STRING => {
            if 0 <= i < s.len() && (s[i] == '"' || s[i] == '\'') {
                lemma_close_at_bounds(s, i + 1, s[i]);
            }
        }
        Token::FLOAT => {
            let a = digit_run(s, i);
            if a > 0 && i + a < s.len() {
                lemma_digit_run_le(s, i + a + 1);
            }
        }
        Token::INTEGER => {
            lemma_digit_run_le(s, i);
        }
        Token::WHITESPACE => {
            lemma_space_run_le(s, i);
        }
        Token::COMMENT => {
            if 0 <= i < s.len() {
                lemma_noneol_run_le(s, i + 1);
            }
        }
        Token::ID => {
            if 0 <= i < s.len() {
                lemma_id_cont_run_le(s, i + 1);
            }
        }
        _ => {
            lemma_lit_spelling_len(k);
        }
    }
}

fn match_len_at(k: Token, src: &Vec<char>, i: usize) -> (r: Option<usize>)
    requires
        i <= src@.len(),
    ensures
        opt_len_view(r) == entry_match_len(k, src@, i as int),
{
    match k {
        Token::STRING => {
            if i < src.len() {
                let c = src[i];
                if c == '"' || c == '\'' {
                    match scan_close(src, i + 1, c) {
                        Some(j) => Some(j - i + 1),
                        None => None,
                    }
                } else {
                    None
                }
            } else {
                None
            }
        }
        Token::FLOAT => {
            let e1 = scan_digit_run(src, i);
            if e1 > i && e1 < src.len() && src[e1] == '.' {
                let e2 = scan_digit_run(src, e1 + 1);
                if e2 > e1 + 1 {
                    Some(e2 - i)
                } else {
                    None
                }
            } else {
                None
            }
        }
        Token::INTEGER => {
            let e = scan_digit_run(src, i);
            if e > i {
                Some(e - i)
            } else {
                None
            }
        }
        Token::WHITESPACE => {
            let e = scan_space_run(src, i);
            if e > i {
                Some(e - i)
            } else {
                None
            }
        }
        Token::COMMENT => {
            if i < src.len() && src[i] == '#' {
                let e = scan_noneol_run(src, i + 1);
                Some(e - i)
            } else {
                None
            }
        }
        Token::ID => {
            if i < src.len() && id_start_char(src[i]) {
                let e = scan_id_cont_run(src, i + 1);
                Some(e - i)
            } else {
                None
            }
        }
        _ => {
            match lit_str(k) {
                Some(p) => match_lit(p, src, i),
                None => None,
            }
        }
    }
}

fn scan_digit_run(src: &Vec<char>, from: usize) -> (j: usize)
    requires
        from <= src@.len(),
    ensures
        from <= j <= src@.len(),
        j - from == digit_run(src@, from as int),
{
    let mut j: usize = from;
    while j < src.len() && digit_char(src[j])
        invariant
            from <= j <= src@.len(),
            digit_run(src@, from as int) == (j - from) + digit_run(src@, j as int),
        decreases src@.len() - j,
    {
        j += 1;
    }
    j
}

fn scan_id_cont_run(src: &Vec<char>, from: usize) -> (j: usize)
    requires
        from <= src@.len(),
    ensures
        from <= j <= src@.len(),
        j - from == id_cont_run(src@, from as int),
{
    let mut j: usize = from;
    while j < src.len() && id_cont_char(src[j])
        invariant
            from <= j <= src@.len(),
            id_cont_run(src@, from as int) == (j - from) + id_cont_run(src@, j as int),
        decreases src@.len() - j,
    {
        j += 1;
    }
    j
}

fn scan_space_run(src: &Vec<char>, from: usize) -> (j: usize)
    requires
        from <= src@.len(),
    ensures
        from <= j <= src@.len(),
        j - from == space_run(src@, from as int),
{
    let mut j: usize = from;
    while j < src.len() && space_char(src[j])
        invariant
            from <= j <= src@.len(),
            space_run(src@, from as int) == (j - from) + space_run(src@, j as int),
        decreases src@.len() - j,
    {
        j += 1;
    }
    j
}

fn scan_noneol_run(src: &Vec<char>, from: usize) -> (j: usize)
    requires
        from <= src@.len(),
    ensures
        from <= j <= src@.len(),
        j - from == noneol_run(src@, from as int),
{
    let mut j: usize = from;
    while j < src.len() && src[j] != '\n'
        invariant
            from <= j <= src@.len(),
            noneol_run(src@, from as int) == (j - from) + noneol_run(src@, j as int),
        decreases src@.len() - j,
    {
        j += 1;
    }
    j
}

fn scan_close(src: &Vec<char>, from: usize, q: char) -> (r: Option<usize>)
    requires
        from <= src@.len(),
    ensures
        match r {
            Some(j) => close_at(src@, from as int, q) == Some(j as int) && from <= j
                < src@.len(),
            None => close_at(src@, from as int, q) is None,
        },
{
    let mut j: usize = from;
    while j < src.len()
        invariant
            from <= j <= src@.len(),
            close_at(src@, from as int, q) == close_at(src@, j as int, q),
        decreases src@.len() - j,
    {
        if src[j] == q {
            return Some(j);
        }
        j += 1;
    }
    None
}

// ---------------------------------------------------------------------------
// Selection among the entries: maximal munch, first-declared wins ties
// ---------------------------------------------------------------------------

/// Folds one entry into the best match so far: a later entry displaces the
/// current best only with a strictly longer match, so on equal lengths the
/// entry declared first is kept.
pub open spec fn pick_better(best: Option<(Token, nat)>, k: Token, m: Option<nat>) -> Option<
    (Token, nat),
> {
    match m {
        None => best,
        Some(l) => match best {
            None => Some((k, l)),
            Some((bk, bl)) => if l > bl {
                Some((k, l))
            } else {
                best
            },
        },
    }
}

/// The best match at position `i` among the first `n` catalog entries.
pub open spec fn best_match_upto(s: Seq<char>, i: int, n: int) -> Option<(Token, nat)>
    decreases n,
{
    if n <= 0 {
        None
    } else {
        pick_better(
            best_match_upto(s, i, n - 1),
            catalog()[n - 1],
            entry_match_len(catalog()[n - 1], s, i),
        )
    }
}

/// The entry the scanner selects at position `i`: the one with the longest
/// match, ties going to the entry declared first; `None` when no entry
/// matches, which the scanner reports as an ILLEGAL token.
pub open spec fn best_match(s: Seq<char>, i: int) -> Option<(Token, nat)> {
    best_match_upto(s, i, CATALOG_LEN as int)
}

/// An executable selection as its mathematical value.
pub open spec fn opt_match_view(r: Option<(Token, usize)>) -> Option<(Token, nat)> {
    match r {
        Some((k, l)) => Some((k, l as nat)),
        None => None,
    }
}

proof fn lemma_best_match_upto_bounds(s: Seq<char>, i: int, n: int)
    requires
        0 <= i <= s.len(),
        n <= CATALOG_LEN,
    ensures
        best_match_upto(s, i, n) matches Some((k, l)) ==> 1 <= l && i + l <= s.len(),
    decreases n,
{
    if n > 0 {
        lemma_best_match_upto_bounds(s, i, n - 1);
        lemma_entry_match_bounds(catalog()[n - 1], s, i);
    }
}

/// The selected lexeme is never empty and never runs past the end of the
/// source.
pub proof fn lemma_best_match_bounds(s: Seq<char>, i: int)
    requires
        0 <= i <= s.len(),
    ensures
        best_match(s, i) matches Some((k, l)) ==> 1 <= l && i + l <= s.len(),
{
    lemma_best_match_upto_bounds(s, i, CATALOG_LEN as int);
}

/// What it means for the scanner to select entry `bk` with match length `bl`
/// at position `i`, where `j` is the declaration index of `bk` among the
/// first `n` catalog entries: the entry itself matches with length `bl`, and
/// every other matching entry either matches strictly shorter, or matches
/// the same length and is declared at `j` or later.
pub open spec fn is_selection(s: Seq<char>, i: int, bk: Token, bl: nat, j: int, n: int) -> bool {
    &&& 0 <= j < n
    &&& catalog()[j] == bk
    &&& entry_match_len(bk, s, i) == Some(bl)
    &&& forall|j2: int|
        0 <= j2 < n ==> (match #[trigger] entry_match_len(catalog()[j2], s, i) {
            Some(l2) => l2 < bl || (l2 == bl && j <= j2),
            None => true,
        })
}

proof fn lemma_best_upto_characterization(s: Seq<char>, i: int, n: int) -> (j: int)
    requires
        0 <= i <= s.len(),
        0 <= n <= CATALOG_LEN,
    ensures
        best_match_upto(s, i, n) is None ==> forall|j2: int|
            0 <= j2 < n ==> #[trigger] entry_match_len(catalog()[j2], s, i) is None,
        best_match_upto(s, i, n) matches Some((bk, bl)) ==> is_selection(s, i, bk, bl, j, n),
    decreases n,
{
    if n <= 0 {
        0
    } else {
        let pj = lemma_best_upto_characterization(s, i, n - 1);
        let prev = best_match_upto(s, i, n - 1);
        let m = entry_match_len(catalog()[n - 1], s, i);
        assert(best_match_upto(s, i, n) == pick_better(prev, catalog()[n - 1], m));
        match prev {
            None => {
                match m {
                    Some(l) => {
                        assert(is_selection(s, i, catalog()[n - 1], l, n - 1, n));
                        n - 1
                    }
                    None => 0,
                }
            }
            Some((pk, pl)) => {
                assert(is_selection(s, i, pk, pl, pj, n - 1));
                match m {
                    Some(l) => {
                        if l > pl {
                            assert(is_selection(s, i, catalog()[n - 1], l, n - 1, n));
                            n - 1
                        } else {
                            assert(is_selection(s, i, pk, pl, pj, n));
                            pj
                        }
                    }
                    None => {
                        assert(is_selection(s, i, pk, pl, pj, n));
                        pj
                    }
                }
            }
        }
    }
}

/// The scanner's selection rule, as a theorem about [`best_match`]: when no
/// entry matches at `i`, nothing is selected; and the selected entry always
/// carries the longest match among all catalog entries, ties falling to the
/// entry declared first. The returned value is the declaration index of the
/// selected entry.
pub proof fn lemma_best_match_characterization(s: Seq<char>, i: int) -> (j: int)
    requires
        0 <= i <= s.len(),
    ensures
        best_match(s, i) is None ==> forall|j2: int|
            0 <= j2 < CATALOG_LEN ==> #[trigger] entry_match_len(catalog()[j2], s, i) is None,
        best_match(s, i) matches Some((bk, bl)) ==> is_selection(
            s,
            i,
            bk,
            bl,
            j,
            CATALOG_LEN as int,
        ),
{
    lemma_best_upto_characterization(s, i, CATALOG_LEN as int)
}

proof fn lemma_space_entry_match(s: Seq<char>, i: int)
    requires
        0 <= i < s.len(),
        is_space(s[i]),
    ensures
        forall|k: Token| k != Token::WHITESPACE ==> entry_match_len(k, s, i) is None,
        entry_match_len(Token::WHITESPACE, s, i) == Some(space_run(s, i)),
{
    assert(space_run(s, i) > 0);
    assert forall|k: Token| k != Token::WHITESPACE implies entry_match_len(k, s, i) is None by {
        lemma_lit_spelling_len(k);
        if entry_match_len(k, s, i) is Some {
            match lit_spelling(k) {
                Some(p) => {
                    assert(s.subrange(i, i + p.len()) == p);
                    assert(s.subrange(i, i + p.len())[0] == s[i]);
                    assert(false);
                }
                None => {},
            }
        }
    }
}

proof fn lemma_space_best_upto(s: Seq<char>, i: int, n: int)
    requires
        0 <= i < s.len(),
        is_space(s[i]),
        0 <= n <= CATALOG_LEN,
    ensures
        best_match_upto(s, i, n) == if n <= 37 {
            None::<(Token, nat)>
        } else {
            Some((Token::WHITESPACE, space_run(s, i)))
        },
    decreases n,
{
    lemma_space_entry_match(s, i);
    if n > 0 {
        lemma_space_best_upto(s, i, n - 1);
        assert(catalog()[37] == Token::WHITESPACE);
        if n - 1 != 37 {
            assert(catalog()[n - 1] != Token::WHITESPACE);
        }
    }
}

/// At a whitespace character the scanner always selects a WHITESPACE match,
/// covering the maximal whitespace run.
pub proof fn lemma_space_best_match(s: Seq<char>, i: int)
    requires
        0 <= i < s.len(),
        is_space(s[i]),
    ensures
        best_match(s, i) == Some((Token::WHITESPACE, space_run(s, i))),
{
    lemma_space_best_upto(s, i, CATALOG_LEN as int);
}

/// Tries every catalog entry at position `i` and selects the longest match,
/// breaking ties in favour of the entry declared first.
pub fn best_match_at(src: &Vec<char>, i: usize) -> (r: Option<(Token, usize)>)
    requires
        i <= src@.len(),
    ensures
        opt_match_view(r) == best_match(src@, i as int),
{
    let pats = patterns();
    let mut best: Option<(Token, usize)> = None;
    let mut n: usize = 0;
    while n < pats.len()
        invariant
            i <= src@.len(),
            pats@ == catalog(),
            n <= pats@.len(),
            pats@.len() == CATALOG_LEN,
            opt_match_view(best) == best_match_upto(src@, i as int, n as int),
        decreases pats@.len() - n,
    {
        let k = pats[n];
        let m = match_len_at(k, src, i);
        match m {
            Some(l) => {
                match best {
                    None => {
                        best = Some((k, l));
                    }
                    Some((_, bl)) => {
                        if l > bl {
                            best = Some((k, l));
                        }
                    }
                }
            }
            None => {}
        }
        n += 1;
    }
    best
}

} // verus!
