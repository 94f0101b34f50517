//! The lexer: source text to tokens.
use vstd::prelude::*;
use crate::error::Error;

verus! {

#[derive(Debug)]
pub enum Token {
    Identifier(String),
    IntegerConstant(i32),
    Int,
    Void,
    Return,
    If,
    Else,
    Goto,
    While,
    Do,
    For,
    Break,
    Continue,
    OpenParenthesis,
    ClosedParenthesis,
    OpenBrace,
    ClosedBrace,
    Semicolon,
    Tilde,
    Hyphen,
    Plus,
    Asterisk,
    ForwardSlash,
    Percent,
    Ampersand,
    Pipe,
    Carrot,
    LeftShift,
    RightShift,
    Exclamation,
    DoubleAmpersand,
    DoublePipe,
    DoubleEqual,
    NotEqual,
    LessThan,
    GreaterThan,
    Leq,
    Geq,
    Equal,
    PlusEqual,
    MinusEqual,
    AsteriskEqual,
    ForwardSlashEqual,
    PercentEqual,
    AmpersandEqual,
    PipeEqual,
    CarrotEqual,
    LtLtEqual,
    GtGtEqual,
    DoubleHyphen,
    DoublePlus,
    QuestionMark,
    Colon,
}

/// What a token denotes: an identifier by its characters, any other token
/// as itself.
pub enum TokenView {
    Ident(Seq<char>),
    Tok(Token),
}

impl View for Token {
    type V = TokenView;

    open spec fn view(&self) -> TokenView {
        match self {
            Token::Identifier(s) => TokenView::Ident(s@),
            _ => TokenView::Tok(*self),
        }
    }
}

pub open spec fn tokens_view(t: Seq<Token>) -> Seq<TokenView> {
    t.map_values(|x: Token| x@)
}

/// Whether `char::is_whitespace` holds of `c` (Unicode `White_Space`).
pub uninterp spec fn whitespace(c: char) -> bool;

/// Relies on `char::is_whitespace`: whether `c` has the Unicode
/// `White_Space` property, which space, tab, newline and carriage return have.
#[verifier::external_body]
fn is_whitespace(c: char) -> (r: bool)
    ensures
        r == whitespace(c),
        (c == ' ' || c == '\t' || c == '\n' || c == '\r') ==> r,
{
    c.is_whitespace()
}

pub open spec fn is_ident_start(c: char) -> bool {
    ('a' <= c && c <= 'z') || ('A' <= c && c <= 'Z') || c == '_'
}

pub open spec fn is_digit(c: char) -> bool {
    '0' <= c && c <= '9'
}

/// The number of characters that `^[a-zA-Z_]\w*\b` matches at the start of `s`.
pub uninterp spec fn identifier_match(s: Seq<char>) -> nat;

/// The number of characters that `^[0-9]+\b` matches at the start of `s`.
pub uninterp spec fn constant_match(s: Seq<char>) -> nat;

/// Relies on regex's `Regex::find` with `^[a-zA-Z_]\w*\b`: the identifier
/// at the start of `rest`, measured in characters, or 0.  An ASCII letter or
/// `_` starts a match, which `\w*` then extends, so a match exists exactly
/// when the first character is one of them.
#[verifier::external_body]
fn identifier_len(rest: &str) -> (r: usize)
    ensures
        r == identifier_match(rest@),
        r <= rest@.len(),
        r > 0 <==> (rest@.len() > 0 && is_ident_start(rest@[0])),
{
    match regex::Regex::new(r"^[a-zA-Z_]\w*\b") {
        Ok(re) => match re.find(rest) {
            Some(m) => m.as_str().chars().count(),
            None => 0,
        },
        Err(_) => 0,
    }
}

/// Relies on regex's `Regex::find` with `^[0-9]+\b`: the run of ASCII
/// digits at the start of `rest`, measured in characters, when a word
/// boundary follows it; otherwise 0.
#[verifier::external_body]
fn constant_len(rest: &str) -> (r: usize)
    ensures
        r == constant_match(rest@),
        r <= rest@.len(),
        forall|i: int| 0 <= i < r ==> is_digit(#[trigger] rest@[i]),
{
    match regex::Regex::new(r"^[0-9]+\b") {
        Ok(re) => match re.find(rest) {
            Some(m) => m.as_str().chars().count(),
            None => 0,
        },
        Err(_) => 0,
    }
}

/// Relies on `str::chars`: the characters of `s` in order.
#[verifier::external_body]
fn chars_of(s: &str) -> (r: Vec<char>)
    ensures
        r@ == s@,
{
    s.chars().collect()
}

fn text_is(s: &Vec<char>, start: usize, len: usize, word: &str) -> (r: bool)
    requires
        start + len <= s@.len(),
    ensures
        r == (s@.subrange(start as int, start + len) == word@),
{
    let _sl = s.len();
    let n = word.unicode_len();
    if n != len {
        assert(s@.subrange(start as int, start + len).len() != word@.len());
        return false;
    }
    let mut i: usize = 0;
    while i < n
        invariant
            0 <= i <= n,
            n == len,
            n == word@.len(),
            start + len <= s@.len(),
            _sl == s@.len(),
            forall|k: int| 0 <= k < i ==> s@[start + k] == word@[k],
        decreases n - i,
    {
        if s[start + i] != word.get_char(i) {
            assert(s@.subrange(start as int, start + len)[i as int] != word@[i as int]);
            return false;
        }
        i = i + 1;
    }
    assert(s@.subrange(start as int, start + len) =~= word@);
    true
}

/// The token of a word: a keyword, or else an identifier.
pub open spec fn word_token(w: Seq<char>) -> TokenView {
    if w == "int"@ { TokenView::Tok(Token::Int) }
    else if w == "void"@ { TokenView::Tok(Token::Void) }
    else if w == "return"@ { TokenView::Tok(Token::Return) }
    else if w == "if"@ { TokenView::Tok(Token::If) }
    else if w == "else"@ { TokenView::Tok(Token::Else) }
    else if w == "goto"@ { TokenView::Tok(Token::Goto) }
    else if w == "while"@ { TokenView::Tok(Token::While) }
    else if w == "do"@ { TokenView::Tok(Token::Do) }
    else if w == "for"@ { TokenView::Tok(Token::For) }
    else if w == "break"@ { TokenView::Tok(Token::Break) }
    else if w == "continue"@ { TokenView::Tok(Token::Continue) }
    else { TokenView::Ident(w) }
}

fn keyword_or_identifier(s: &Vec<char>, start: usize, len: usize) -> (r: Token)
    requires
        start + len <= s@.len(),
    ensures
        r@ == word_token(s@.subrange(start as int, start + len)),
{
    if text_is(s, start, len, "int") { Token::Int }
    else if text_is(s, start, len, "void") { Token::Void }
    else if text_is(s, start, len, "return") { Token::Return }
    else if text_is(s, start, len, "if") { Token::If }
    else if text_is(s, start, len, "else") { Token::Else }
    else if text_is(s, start, len, "goto") { Token::Goto }
    else if text_is(s, start, len, "while") { Token::While }
    else if text_is(s, start, len, "do") { Token::Do }
    else if text_is(s, start, len, "for") { Token::For }
    else if text_is(s, start, len, "break") { Token::Break }
    else if text_is(s, start, len, "continue") { Token::Continue }
    else {
        let _sl = s.len();
        let end = start + len;
        let mut name = String::new();
        let mut i: usize = start;
        assert(name@ =~= s@.subrange(start as int, start as int));
        while i < end
            invariant
                end == start + len,
                start <= i <= start + len <= s@.len(),
                name@ == s@.subrange(start as int, i as int),
            decreases start + len - i,
        {
            name.append(char_str(s[i]).as_str());
            assert(name@ =~= s@.subrange(start as int, i + 1));
            i = i + 1;
        }
        Token::Identifier(name)
    }
}

/// Relies on `String::from` for a `char`: the one-character string.
#[verifier::external_body]
fn char_str(c: char) -> (r: String)
    ensures
        r@ == seq![c],
{
    String::from(c)
}

pub open spec fn digits_value(s: Seq<char>) -> int
    decreases s.len(),
{
    if s.len() == 0 {
        0
    } else {
        digits_value(s.drop_last()) * 10 + (s.last() as int - '0' as int)
    }
}

/// The value of the digits `s[start..start + len]`, if it fits in an `i32`.
fn constant_value(s: &Vec<char>, start: usize, len: usize) -> (r: Option<i32>)
    requires
        start + len <= s@.len(),
        forall|i: int| start <= i < start + len ==> is_digit(#[trigger] s@[i]),
    ensures
        r matches Some(v) ==> v as int == digits_value(s@.subrange(start as int, start + len)),
        r is None ==> digits_value(s@.subrange(start as int, start + len)) > i32::MAX,
{
    let _sl = s.len();
    let end = start + len;
    let mut v: i64 = 0;
    let mut i: usize = start;
    assert(s@.subrange(start as int, start as int) =~= Seq::<char>::empty());
    while i < end
        invariant
            end == start + len,
            start <= i <= start + len <= s@.len(),
            forall|k: int| start <= k < start + len ==> is_digit(#[trigger] s@[k]),
            0 <= v <= i32::MAX,
            v as int == digits_value(s@.subrange(start as int, i as int)),
        decreases start + len - i,
    {
        let c = s[i];
        assert(is_digit(s@[i as int]));
        let d = (c as u32 - '0' as u32) as i64;
        assert(s@.subrange(start as int, i + 1).drop_last() =~= s@.subrange(start as int, i as int));
        let next = v * 10 + d;
        if next > i32::MAX as i64 {
            proof { lemma_digits_grow(s@.subrange(start as int, start + len), (i + 1 - start) as int); }
            assert(s@.subrange(start as int, start + len).subrange(0, i + 1 - start) =~= s@.subrange(start as int, i + 1));
            return None;
        }
        v = next;
        i = i + 1;
    }
    Some(v as i32)
}

/// A number written with more digits is no smaller than its prefix.
proof fn lemma_digits_grow(s: Seq<char>, k: int)
    requires
        0 <= k <= s.len(),
        forall|i: int| 0 <= i < s.len() ==> is_digit(#[trigger] s[i]),
    ensures
        digits_value(s) >= digits_value(s.subrange(0, k)),
        digits_value(s.subrange(0, k)) >= 0,
    decreases s.len(),
{
    if k == s.len() {
        assert(s.subrange(0, k) =~= s);
        lemma_digits_nonneg(s);
    } else {
        assert(s.drop_last().subrange(0, k) =~= s.subrange(0, k));
        lemma_digits_grow(s.drop_last(), k);
        lemma_digits_nonneg(s.drop_last());
        assert(is_digit(s.last()));
    }
}

proof fn lemma_digits_nonneg(s: Seq<char>)
    requires
        forall|i: int| 0 <= i < s.len() ==> is_digit(#[trigger] s[i]),
    ensures
        digits_value(s) >= 0,
    decreases s.len(),
{
    if s.len() > 0 {
        lemma_digits_nonneg(s.drop_last());
        assert(is_digit(s.last()));
    }
}

/// The punctuation token at `pos` and its length: the longest of the
/// operators that start there.
pub open spec fn punct_at(s: Seq<char>, pos: int) -> Option<(Token, nat)> {
    let c = s[pos];
    let c1 = if pos + 1 < s.len() { s[pos + 1] } else { '\0' };
    let c2 = if pos + 2 < s.len() { s[pos + 2] } else { '\0' };
    match c {
        '(' => Some((Token::OpenParenthesis, 1nat)),
        ')' => Some((Token::ClosedParenthesis, 1nat)),
        '{' => Some((Token::OpenBrace, 1nat)),
        '}' => Some((Token::ClosedBrace, 1nat)),
        ';' => Some((Token::Semicolon, 1nat)),
        '~' => Some((Token::Tilde, 1nat)),
        '?' => Some((Token::QuestionMark, 1nat)),
        ':' => Some((Token::Colon, 1nat)),
        '-' => if c1 == '-' { Some((Token::DoubleHyphen, 2nat)) } else if c1 == '=' { Some((Token::MinusEqual, 2nat)) } else { Some((Token::Hyphen, 1nat)) },
        '+' => if c1 == '+' { Some((Token::DoublePlus, 2nat)) } else if c1 == '=' { Some((Token::PlusEqual, 2nat)) } else { Some((Token::Plus, 1nat)) },
        '*' => if c1 == '=' { Some((Token::AsteriskEqual, 2nat)) } else { Some((Token::Asterisk, 1nat)) },
        '/' => if c1 == '=' { Some((Token::ForwardSlashEqual, 2nat)) } else { Some((Token::ForwardSlash, 1nat)) },
        '%' => if c1 == '=' { Some((Token::PercentEqual, 2nat)) } else { Some((Token::Percent, 1nat)) },
        '&' => if c1 == '&' { Some((Token::DoubleAmpersand, 2nat)) } else if c1 == '=' { Some((Token::AmpersandEqual, 2nat)) } else { Some((Token::Ampersand, 1nat)) },
        '|' => if c1 == '|' { Some((Token::DoublePipe, 2nat)) } else if c1 == '=' { Some((Token::PipeEqual, 2nat)) } else { Some((Token::Pipe, 1nat)) },
        '^' => if c1 == '=' { Some((Token::CarrotEqual, 2nat)) } else { Some((Token::Carrot, 1nat)) },
        '!' => if c1 == '=' { Some((Token::NotEqual, 2nat)) } else { Some((Token::Exclamation, 1nat)) },
        '=' => if c1 == '=' { Some((Token::DoubleEqual, 2nat)) } else { Some((Token::Equal, 1nat)) },
        '>' => if c1 == '>' {
            if c2 == '=' { Some((Token::GtGtEqual, 3nat)) } else { Some((Token::RightShift, 2nat)) }
        } else if c1 == '=' { Some((Token::Geq, 2nat)) } else { Some((Token::GreaterThan, 1nat)) },
        '<' => if c1 == '<' {
            if c2 == '=' { Some((Token::LtLtEqual, 3nat)) } else { Some((Token::LeftShift, 2nat)) }
        } else if c1 == '=' { Some((Token::Leq, 2nat)) } else { Some((Token::LessThan, 1nat)) },
        _ => None,
    }
}

/// The punctuation token at `pos` and its length in characters.
fn punctuation(s: &Vec<char>, pos: usize) -> (r: Option<(Token, usize)>)
    requires
        pos < s@.len(),
    ensures
        r matches Some(p) ==> 1 <= p.1 <= 3 && pos + p.1 <= s@.len() && punct_at(s@, pos as int) == Some((p.0, p.1 as nat)),
        r is None <==> punct_at(s@, pos as int) is None,
{
    let c = s[pos];
    let sl = s.len();
    let c1 = if sl - pos > 1 { s[pos + 1] } else { '\0' };
    let c2 = if sl - pos > 2 { s[pos + 2] } else { '\0' };
    let t = match c {
        '(' => (Token::OpenParenthesis, 1),
        ')' => (Token::ClosedParenthesis, 1),
        '{' => (Token::OpenBrace, 1),
        '}' => (Token::ClosedBrace, 1),
        ';' => (Token::Semicolon, 1),
        '~' => (Token::Tilde, 1),
        '?' => (Token::QuestionMark, 1),
        ':' => (Token::Colon, 1),
        '-' => if c1 == '-' { (Token::DoubleHyphen, 2) } else if c1 == '=' { (Token::MinusEqual, 2) } else { (Token::Hyphen, 1) },
        '+' => if c1 == '+' { (Token::DoublePlus, 2) } else if c1 == '=' { (Token::PlusEqual, 2) } else { (Token::Plus, 1) },
        '*' => if c1 == '=' { (Token::AsteriskEqual, 2) } else { (Token::Asterisk, 1) },
        '/' => if c1 == '=' { (Token::ForwardSlashEqual, 2) } else { (Token::ForwardSlash, 1) },
        '%' => if c1 == '=' { (Token::PercentEqual, 2) } else { (Token::Percent, 1) },
        '&' => if c1 == '&' { (Token::DoubleAmpersand, 2) } else if c1 == '=' { (Token::AmpersandEqual, 2) } else { (Token::Ampersand, 1) },
        '|' => if c1 == '|' { (Token::DoublePipe, 2) } else if c1 == '=' { (Token::PipeEqual, 2) } else { (Token::Pipe, 1) },
        '^' => if c1 == '=' { (Token::CarrotEqual, 2) } else { (Token::Carrot, 1) },
        '!' => if c1 == '=' { (Token::NotEqual, 2) } else { (Token::Exclamation, 1) },
        '=' => if c1 == '=' { (Token::DoubleEqual, 2) } else { (Token::Equal, 1) },
        '>' => if c1 == '>' {
            if c2 == '=' { (Token::GtGtEqual, 3) } else { (Token::RightShift, 2) }
        } else if c1 == '=' { (Token::Geq, 2) } else { (Token::GreaterThan, 1) },
        '<' => if c1 == '<' {
            if c2 == '=' { (Token::LtLtEqual, 3) } else { (Token::LeftShift, 2) }
        } else if c1 == '=' { (Token::Leq, 2) } else { (Token::LessThan, 1) },
        _ => { return None; },
    };
    Some(t)
}

pub open spec fn prefix_with(p: Seq<TokenView>, rest: Result<Seq<TokenView>, char>) -> Result<Seq<TokenView>, char> {
    match rest {
        Ok(r) => Ok(p + r),
        Err(c) => Err(c),
    }
}

/// The tokens of `s` from position `pos`, or the character at which
/// lexing fails.  Whitespace is skipped; then the longest identifier or
/// keyword, else a decimal constant (which must fit in an `i32`), else the
/// longest operator starts the next token.
pub open spec fn lex_from(s: Seq<char>, pos: int) -> Result<Seq<TokenView>, char>
    decreases s.len() - pos,
{
    if pos < 0 || pos >= s.len() {
        Ok(Seq::empty())
    } else {
        let c = s[pos];
        let rest = s.subrange(pos, s.len() as int);
        let id = identifier_match(rest);
        let k = constant_match(rest);
        if whitespace(c) {
            lex_from(s, pos + 1)
        } else if 0 < id && id <= rest.len() {
            prefix_with(seq![word_token(s.subrange(pos, pos + id))], lex_from(s, pos + id))
        } else if 0 < k && k <= rest.len() {
            let v = digits_value(s.subrange(pos, pos + k));
            if v > i32::MAX {
                Err(c)
            } else {
                prefix_with(seq![TokenView::Tok(Token::IntegerConstant(v as i32))], lex_from(s, pos + k))
            }
        } else {
            match punct_at(s, pos) {
                Some((t, l)) => if 0 < l {
                    prefix_with(seq![TokenView::Tok(t)], lex_from(s, pos + l))
                } else {
                    Err(c)
                },
                None => Err(c),
            }
        }
    }
}

proof fn lemma_prefix_with(p: Seq<TokenView>, t: TokenView, rest: Result<Seq<TokenView>, char>)
    ensures
        prefix_with(p, prefix_with(seq![t], rest)) == prefix_with(p.push(t), rest),
{
    if let Ok(r) = rest {
        assert(p + (seq![t] + r) =~= p.push(t) + r);
    }
}

/// Splits source text into tokens, as `lex_from` says: it fails, on the
/// character where lexing stops, exactly when `lex_from` does.
pub fn lexer(input: &str) -> (r: Result<Vec<Token>, Error>)
    ensures
        r is Ok <==> lex_from(input@, 0) is Ok,
        r matches Ok(toks) ==> lex_from(input@, 0) == Ok::<Seq<TokenView>, char>(tokens_view(toks@)),
        r matches Err(e) ==> e matches Error::Lexer { ch } && lex_from(input@, 0) == Err::<Seq<TokenView>, char>(ch),
{
    let s = chars_of(input);
    let n = s.len();
    let mut toks: Vec<Token> = Vec::new();
    let mut pos: usize = 0;
    assert(tokens_view(toks@) =~= Seq::<TokenView>::empty());
    assert(prefix_with(Seq::empty(), lex_from(s@, 0)) == lex_from(s@, 0)) by {
        if let Ok(r) = lex_from(s@, 0) { assert(Seq::<TokenView>::empty() + r =~= r); }
    }
    while pos < n
        invariant
            n == s@.len(),
            s@ == input@,
            0 <= pos <= n,
            lex_from(s@, 0) == prefix_with(tokens_view(toks@), lex_from(s@, pos as int)),
        decreases n - pos,
    {
        let ghost before = tokens_view(toks@);
        let c = s[pos];
        if is_whitespace(c) {
            pos = pos + 1;
            continue;
        }
        let rest = input.substring_char(pos, n);
        assert(rest@ == s@.subrange(pos as int, n as int));
        let id = identifier_len(rest);
        if id > 0 {
            let t = keyword_or_identifier(&s, pos, id);
            proof { lemma_prefix_with(before, t@, lex_from(s@, pos + id)); }
            toks.push(t);
            assert(tokens_view(toks@) =~= before.push(t@));
            pos = pos + id;
            continue;
        }
        let k = constant_len(rest);
        if k > 0 {
            assert forall|i: int| pos <= i < pos + k implies is_digit(#[trigger] s@[i]) by {
                assert(rest@[i - pos] == s@[i]);
            }
            match constant_value(&s, pos, k) {
                Some(v) => {
                    let t = Token::IntegerConstant(v);
                    proof { lemma_prefix_with(before, t@, lex_from(s@, pos + k)); }
                    toks.push(t);
                    assert(tokens_view(toks@) =~= before.push(t@));
                },
                None => { return Err(Error::Lexer { ch: c }); },
            }
            pos = pos + k;
            continue;
        }
        match punctuation(&s, pos) {
            Some((t, len)) => {
                proof { lemma_prefix_with(before, t@, lex_from(s@, pos + len)); }
                assert(t@ == TokenView::Tok(t));
                toks.push(t);
                assert(tokens_view(toks@) =~= before.push(t@));
                pos = pos + len;
            },
            None => { return Err(Error::Lexer { ch: c }); },
        }
    }
    assert(prefix_with(tokens_view(toks@), lex_from(s@, pos as int)) == Ok::<Seq<TokenView>, char>(tokens_view(toks@))) by {
        assert(tokens_view(toks@) + Seq::<TokenView>::empty() =~= tokens_view(toks@));
    }
    Ok(toks)
}

} // verus!
