//! The scanner of the command language: from the tokens of a command line
//! to the arguments, redirects and separators that a command is built
//! from.
//!
//! The tokens are those of Rust source text, so a command line is written
//! as tokens with their places in the text. Two tokens belong to one
//! argument when nothing stands between them.

use vstd::prelude::*;
use vstd::string::*;
use crate::redirect::RedirectFd;
use crate::text::{is_name_char, name_char, to_chars};

verus! {

/// The place of a token in the source text: the offsets of its first
/// character and of the character after its last.
#[derive(Clone, Copy, Debug, PartialEq, Eq, Structural)]
pub struct Span {
    pub start: usize,
    pub end: usize,
}

/// The brackets around a group of tokens.
#[derive(Clone, Copy, Debug, PartialEq, Eq, Structural)]
pub enum Delimiter {
    Parenthesis,
    Brace,
    Bracket,
    /// No visible brackets.
    Invisible,
}

/// A token inside a group, as far as the scanner looks at it.
#[derive(Debug)]
pub enum Inner {
    /// An identifier.
    Ident(String, Span),
    /// Anything else.
    Other(Span),
}

/// A token of a command line.
#[derive(Debug)]
pub enum Token {
    /// Tokens in brackets.
    Group(Delimiter, Vec<Inner>, Span),
    /// A literal, as it is written in the source text.
    Literal(String, Span),
    /// An identifier.
    Ident(String, Span),
    /// One character of punctuation.
    Punct(char, Span),
}

/// A piece of the text of an argument.
#[derive(Debug, PartialEq, Eq)]
pub enum Piece {
    /// One character.
    Char(char),
    /// A text, taken as it is.
    Text(String),
    /// The value of the variable of that name, as text.
    Var(String),
    /// The value of a literal that is no string, as text.
    Literal(String),
    /// A raw string literal, as it is written.
    Raw(String),
}

/// What a command is built from, in the order of the command line.
#[derive(Debug, PartialEq, Eq)]
pub enum ParseArg {
    /// The next stage reads what this one writes.
    ParsePipe,
    /// What follows runs if what came before failed.
    ParseOr,
    /// What follows is a chain of its own.
    ParseSemicolon,
    /// The first stream becomes an alias of the second.
    ParseRedirectFd(i32, i32),
    /// The stream of that number is redirected to the file; `true`
    /// appends.
    ParseRedirectFile(i32, Vec<Piece>, bool),
    /// One argument.
    ParseArgStr(Vec<Piece>),
    /// As many arguments as the list of that name holds.
    ParseArgVec(String),
}

/// Why a command line was refused.
#[derive(Clone, Copy, Debug, PartialEq, Eq, Structural)]
pub enum LexFault {
    /// A group of tokens stands where no variable is named.
    Grouping,
    /// A redirect follows a redirect that has no file yet.
    RedirectFormat,
    /// Nothing, or another `|`, follows `|` or `||`.
    NoCommandAfterPipe,
    /// A second `||` in one chain.
    SecondOr,
    /// `&` is followed by punctuation other than `>`.
    Punctuation,
    /// `&` is followed by a string literal.
    LiteralAfterAmpersand,
    /// `&` is followed by a number other than 1 and 2.
    StreamNumber,
    /// `&` is followed by nothing that can follow it.
    TokenAfterAmpersand,
    /// `$` is followed by a group in parentheses.
    GroupInParentheses,
    /// `$` is followed by a group without visible brackets.
    GroupWithoutBrackets,
    /// A group after `$` names more than one variable.
    SecondVariable,
    /// A list variable is joined to other text.
    VectorNotAlone,
    /// A group after `$` holds something that is no name.
    ExtraTokens,
    /// `$` is followed by nothing that can follow it.
    TokenAfterDollar,
    /// A string literal is not closed, or `${` in it is not closed by `}`.
    BadSubstitution,
    /// A word after `$` in a string literal cannot name a variable.
    BadVariable,
}

/// Why a command line was refused, and at which token.
#[derive(Clone, Copy, Debug, PartialEq, Eq, Structural)]
pub struct LexError {
    pub fault: LexFault,
    pub span: Span,
}

/// An [`Inner`] as contracts see it.
pub enum InnerView {
    Ident(Seq<char>, Span),
    Other(Span),
}

/// A [`Token`] as contracts see it.
pub enum TokenView {
    Group(Delimiter, Seq<InnerView>, Span),
    Literal(Seq<char>, Span),
    Ident(Seq<char>, Span),
    Punct(char, Span),
}

/// A [`Piece`] as contracts see it.
pub enum PieceView {
    Char(char),
    Text(Seq<char>),
    Var(Seq<char>),
    Literal(Seq<char>),
    Raw(Seq<char>),
}

/// A [`ParseArg`] as contracts see it.
pub enum ParseArgView {
    ParsePipe,
    ParseOr,
    ParseSemicolon,
    ParseRedirectFd(i32, i32),
    ParseRedirectFile(i32, Seq<PieceView>, bool),
    ParseArgStr(Seq<PieceView>),
    ParseArgVec(Seq<char>),
}

impl View for Inner {
    type V = InnerView;

    open spec fn view(&self) -> InnerView {
        match self {
            Inner::Ident(name, span) => InnerView::Ident(name@, *span),
            Inner::Other(span) => InnerView::Other(*span),
        }
    }
}

/// The views of the tokens of a group, in order.
pub open spec fn inner_views(items: Seq<Inner>) -> Seq<InnerView> {
    Seq::new(items.len(), |i: int| items[i]@)
}

impl View for Token {
    type V = TokenView;

    open spec fn view(&self) -> TokenView {
        match self {
            Token::Group(delimiter, items, span) => TokenView::Group(
                *delimiter,
                inner_views(items@),
                *span,
            ),
            Token::Literal(text, span) => TokenView::Literal(text@, *span),
            Token::Ident(name, span) => TokenView::Ident(name@, *span),
            Token::Punct(ch, span) => TokenView::Punct(*ch, *span),
        }
    }
}

/// The views of a list of tokens, in order.
pub open spec fn token_views(tokens: Seq<Token>) -> Seq<TokenView> {
    Seq::new(tokens.len(), |i: int| tokens[i]@)
}

impl View for Piece {
    type V = PieceView;

    open spec fn view(&self) -> PieceView {
        match self {
            Piece::Char(c) => PieceView::Char(*c),
            Piece::Text(text) => PieceView::Text(text@),
            Piece::Var(name) => PieceView::Var(name@),
            Piece::Literal(text) => PieceView::Literal(text@),
            Piece::Raw(text) => PieceView::Raw(text@),
        }
    }
}

/// The views of a list of pieces, in order.
pub open spec fn piece_views(pieces: Seq<Piece>) -> Seq<PieceView> {
    Seq::new(pieces.len(), |i: int| pieces[i]@)
}

impl View for ParseArg {
    type V = ParseArgView;

    open spec fn view(&self) -> ParseArgView {
        match self {
            ParseArg::ParsePipe => ParseArgView::ParsePipe,
            ParseArg::ParseOr => ParseArgView::ParseOr,
            ParseArg::ParseSemicolon => ParseArgView::ParseSemicolon,
            ParseArg::ParseRedirectFd(old_fd, new_fd) => ParseArgView::ParseRedirectFd(
                *old_fd,
                *new_fd,
            ),
            ParseArg::ParseRedirectFile(fd, file, append) => ParseArgView::ParseRedirectFile(
                *fd,
                piece_views(file@),
                *append,
            ),
            ParseArg::ParseArgStr(pieces) => ParseArgView::ParseArgStr(piece_views(pieces@)),
            ParseArg::ParseArgVec(name) => ParseArgView::ParseArgVec(name@),
        }
    }
}

/// The views of a list of scanned items, in order.
pub open spec fn arg_views(args: Seq<ParseArg>) -> Seq<ParseArgView> {
    Seq::new(args.len(), |i: int| args[i]@)
}

impl TokenView {
    /// The place of the token.
    pub open spec fn span(self) -> Span {
        match self {
            TokenView::Group(_, _, span) => span,
            TokenView::Literal(_, span) => span,
            TokenView::Ident(_, span) => span,
            TokenView::Punct(_, span) => span,
        }
    }
}

impl Token {
    /// The place of the token.
    pub fn span(&self) -> (r: Span)
        ensures
            r == self@.span(),
    {
        match self {
            Token::Group(_, _, span) => *span,
            Token::Literal(_, span) => *span,
            Token::Ident(_, span) => *span,
            Token::Punct(_, span) => *span,
        }
    }
}

/// Whether `c` is one of the digits `0` to `9`.
pub open spec fn is_digit(c: char) -> bool {
    '0' <= c && c <= '9'
}

/// The number that the digit `c` stands for.
pub open spec fn digit_value(c: char) -> nat {
    (c as nat - '0' as nat) as nat
}

/// What the first `n` characters of the description of a place say: the
/// number read before the first dot, the number read after it, and whether
/// a dot has come. The first six characters are passed over; then every
/// digit counts and everything else but the dot is passed over.
pub open spec fn span_numbers(s: Seq<char>, n: int) -> (nat, nat, bool)
    decreases n,
{
    if n <= 6 {
        (0, 0, false)
    } else {
        let (start, end, second) = span_numbers(s, n - 1);
        let c = s[n - 1];
        if c == '.' {
            (start, end, true)
        } else if is_digit(c) {
            if second {
                (start, end * 10 + digit_value(c), second)
            } else {
                (start * 10 + digit_value(c), end, second)
            }
        } else {
            (start, end, second)
        }
    }
}

/// The two numbers never shrink as more of the text is read.
proof fn lemma_span_numbers_grow(s: Seq<char>, n: int, m: int)
    requires
        n <= m,
    ensures
        span_numbers(s, n).0 <= span_numbers(s, m).0,
        span_numbers(s, n).1 <= span_numbers(s, m).1,
    decreases m - n,
{
    if n < m {
        lemma_span_numbers_grow(s, n, m - 1);
    }
}

fn digit_of(c: char) -> (r: Option<usize>)
    ensures
        match r {
            Some(d) => is_digit(c) && d == digit_value(c) && d <= 9,
            None => !is_digit(c),
        },
{
    if '0' <= c && c <= '9' {
        Some((c as u32 - '0' as u32) as usize)
    } else {
        None
    }
}

/// Reads the place of a token from its description, which holds the two
/// offsets with dots between them, as in `bytes(12..34)`. `None` where an
/// offset is too large for the machine.
pub fn span_location(s: &str) -> (r: Option<(usize, usize)>)
    ensures
        match r {
            Some(place) => place.0 == span_numbers(s@, s@.len() as int).0 && place.1
                == span_numbers(s@, s@.len() as int).1,
            None => span_numbers(s@, s@.len() as int).0 > usize::MAX || span_numbers(
                s@,
                s@.len() as int,
            ).1 > usize::MAX,
        },
{
    let chars = to_chars(s);
    let mut start: usize = 0;
    let mut end: usize = 0;
    let mut second = false;
    let mut i: usize = 6;
    if chars.len() < 6 {
        return Some((0, 0));
    }
    while i < chars.len()
        invariant
            6 <= i <= chars.len(),
            chars@ == s@,
            (start as nat, end as nat, second) == span_numbers(s@, i as int),
        decreases chars.len() - i,
    {
        let c = chars[i];
        if c == '.' {
            second = true;
        } else {
            match digit_of(c) {
                Some(d) => {
                    let value = if second {
                        end
                    } else {
                        start
                    };
                    if value > (usize::MAX - d) / 10 {
                        proof {
                            lemma_span_numbers_grow(s@, i + 1, s@.len() as int);
                        }
                        return None;
                    }
                    if second {
                        end = end * 10 + d;
                    } else {
                        start = start * 10 + d;
                    }
                },
                None => {},
            }
        }
        i += 1;
    }
    Some((start, end))
}

/// The character that an escape stands for: `n`, `r`, `t` and `0` stand
/// for a line feed, a carriage return, a tab and the character zero; every
/// other character stands for itself.
pub open spec fn unescaped(c: char) -> char {
    if c == 'n' {
        '\n'
    } else if c == 'r' {
        '\r'
    } else if c == 't' {
        '\t'
    } else if c == '0' {
        '\0'
    } else {
        c
    }
}

/// Where the name of a variable that begins at `start` ends: at the first
/// character that may not stand in a name. A name does not begin with a
/// digit.
pub open spec fn name_end(chars: Seq<char>, start: int) -> int {
    if start < chars.len() && is_digit(chars[start]) {
        start
    } else {
        name_run_end(chars, start)
    }
}

/// The position from `i` on of the first character that may not stand in
/// a name; the end of the text if there is none.
pub open spec fn name_run_end(chars: Seq<char>, i: int) -> int
    decreases chars.len() - i,
{
    if 0 <= i < chars.len() && is_name_char(chars[i]) {
        name_run_end(chars, i + 1)
    } else {
        i
    }
}

/// Whether `name` can be the name of a variable in Rust source text.
pub uninterp spec fn is_rust_ident(name: Seq<char>) -> bool;

/// Asks `syn::parse_str::<syn::Ident>` whether `name` parses as an
/// identifier, which keywords and `_` do not. The answer depends on the
/// text alone; it is given the name [`is_rust_ident`] and nothing more is
/// claimed of it.
#[verifier::external_body]
pub(crate) fn parses_as_ident(name: &str) -> (r: bool)
    ensures
        r == is_rust_ident(name@),
{
    syn::parse_str::<syn::Ident>(name).is_ok()
}

/// Why the text of a string literal was refused.
#[derive(Clone, Copy, Debug, PartialEq, Eq, Structural)]
pub enum LiteralError {
    /// The literal is not closed, or `${` is not closed by `}`.
    BadSubstitution,
    /// What follows `$` is a word that cannot name a variable.
    BadVariable,
}

/// What a `$` at position `i` of the text `chars` stands for, and where
/// the text goes on after it; `limit` is the end of the text.
///
/// `$name` and `${name}` stand for the value of the variable; a `$` that
/// no name follows stands for itself.
pub open spec fn dollar_piece(chars: Seq<char>, i: int, limit: int) -> Result<
    (PieceView, int),
    LiteralError,
> {
    let brace = i + 1 < limit && chars[i + 1] == '{';
    let start = if brace {
        i + 2
    } else {
        i + 1
    };
    let end = name_end(chars.take(limit), start);
    if brace && !(end < limit && chars[end] == '}') {
        Err(LiteralError::BadSubstitution)
    } else if end > start && !is_rust_ident(chars.subrange(start, end)) {
        Err(LiteralError::BadVariable)
    } else {
        let piece = if end > start {
            PieceView::Var(chars.subrange(start, end))
        } else {
            PieceView::Char('$')
        };
        Ok((piece, if brace { end + 1 } else { end }))
    }
}

/// What stands at position `i` of the text `chars` of a string literal,
/// and where the text goes on after it; `limit` is the end of the text.
///
/// A `$` is read as [`dollar_piece`] says. A backslash and the character
/// after it stand for one character; a backslash at the end stands for
/// nothing. Every other character stands for itself.
pub open spec fn piece_at(chars: Seq<char>, i: int, limit: int) -> Result<
    (Option<PieceView>, int),
    LiteralError,
> {
    if chars[i] == '$' {
        match dollar_piece(chars, i, limit) {
            Ok((piece, after)) => Ok((Some(piece), after)),
            Err(e) => Err(e),
        }
    } else if chars[i] == '\\' {
        if i + 1 < limit {
            Ok((Some(PieceView::Char(unescaped(chars[i + 1]))), i + 2))
        } else {
            Ok((None, i + 1))
        }
    } else {
        Ok((Some(PieceView::Char(chars[i])), i + 1))
    }
}

/// No piece, or the one piece.
pub open spec fn piece_seq(piece: Option<PieceView>) -> Seq<PieceView> {
    match piece {
        Some(p) => seq![p],
        None => Seq::empty(),
    }
}

/// The pieces of the text `chars` of a string literal from position `i`
/// on, where `limit` is the end of the text: what stands at `i`, then the
/// pieces from where the text goes on.
pub open spec fn pieces_from(chars: Seq<char>, i: int, limit: int) -> Result<
    Seq<PieceView>,
    LiteralError,
>
    decreases limit - i,
{
    if i < 0 || i >= limit || limit > chars.len() {
        Ok(Seq::empty())
    } else {
        match piece_at(chars, i, limit) {
            Err(e) => Err(e),
            Ok((piece, after)) => {
                if i < after <= limit {
                    match pieces_from(chars, after, limit) {
                        Ok(rest) => Ok(piece_seq(piece) + rest),
                        Err(e) => Err(e),
                    }
                } else {
                    Ok(piece_seq(piece))
                }
            },
        }
    }
}

/// The pieces that the literal `lit` stands for, as it is written in the
/// source text. A literal that does not begin with a double quote is a raw
/// string and is taken as it is written. Else the text between the first
/// and the last character is read piece by piece.
pub open spec fn literal_pieces(lit: Seq<char>) -> Result<Seq<PieceView>, LiteralError> {
    if lit.len() == 0 || lit[0] != '"' {
        Ok(seq![PieceView::Raw(lit)])
    } else if lit.len() < 2 {
        Err(LiteralError::BadSubstitution)
    } else {
        pieces_from(lit, 1, lit.len() - 1)
    }
}

fn find_name_end(chars: &Vec<char>, start: usize, limit: usize) -> (r: usize)
    requires
        start <= limit <= chars.len(),
    ensures
        r == name_end(chars@.take(limit as int), start as int),
        start <= r <= limit,
{
    let ghost text = chars@.take(limit as int);
    if start < limit && digit_of(chars[start]).is_some() {
        return start;
    }
    let mut i: usize = start;
    while i < limit && name_char(chars[i])
        invariant
            start <= i <= limit <= chars.len(),
            text == chars@.take(limit as int),
            name_run_end(text, start as int) == name_run_end(text, i as int),
        decreases limit - i,
    {
        i += 1;
    }
    i
}

/// The view of a piece that may be there.
pub open spec fn piece_option_view(piece: Option<Piece>) -> Option<PieceView> {
    match piece {
        Some(p) => Some(p@),
        None => None,
    }
}

/// The piece for the variable `name`, where `is_ident` says whether the
/// word can name a variable.
pub fn variable_piece(name: &str, is_ident: bool) -> (r: Result<Piece, LiteralError>)
    ensures
        match r {
            Ok(piece) => is_ident && piece@ == PieceView::Var(name@),
            Err(e) => !is_ident && e == LiteralError::BadVariable,
        },
{
    if is_ident {
        Ok(Piece::Var(String::from_str(name)))
    } else {
        Err(LiteralError::BadVariable)
    }
}

/// Reads what a `$` at position `i` stands for.
fn read_dollar(lit: &str, chars: &Vec<char>, i: usize, limit: usize) -> (r: Result<
    (Piece, usize),
    LiteralError,
>)
    requires
        chars@ == lit@,
        i < limit < chars.len(),
    ensures
        match dollar_piece(chars@, i as int, limit as int) {
            Ok((piece, after)) => r matches Ok(found) && found.0@ == piece && found.1 == after
                && i < found.1 <= limit,
            Err(e) => r == Err::<(Piece, usize), LiteralError>(e),
        },
{
    let brace = i + 1 < limit && chars[i + 1] == '{';
    let start = if brace {
        i + 2
    } else {
        i + 1
    };
    let end = find_name_end(chars, start, limit);
    if brace && !(end < limit && chars[end] == '}') {
        return Err(LiteralError::BadSubstitution);
    }
    let after = if brace {
        end + 1
    } else {
        end
    };
    if end > start {
        let name = lit.substring_char(start, end);
        match variable_piece(name, parses_as_ident(name)) {
            Ok(piece) => Ok((piece, after)),
            Err(e) => Err(e),
        }
    } else {
        Ok((Piece::Char('$'), after))
    }
}

/// Reads what stands at position `i` of the text of a string literal.
fn read_piece(lit: &str, chars: &Vec<char>, i: usize, limit: usize) -> (r: Result<
    (Option<Piece>, usize),
    LiteralError,
>)
    requires
        chars@ == lit@,
        i < limit < chars.len(),
    ensures
        match piece_at(chars@, i as int, limit as int) {
            Ok((piece, after)) => r matches Ok(found) && piece_option_view(found.0) == piece
                && found.1 == after && i < found.1 <= limit,
            Err(e) => r == Err::<(Option<Piece>, usize), LiteralError>(e),
        },
{
    let c = chars[i];
    if c == '$' {
        match read_dollar(lit, chars, i, limit) {
            Ok((piece, after)) => Ok((Some(piece), after)),
            Err(e) => Err(e),
        }
    } else if c == '\\' {
        if i + 1 < limit {
            let escaped = chars[i + 1];
            let plain = if escaped == 'n' {
                '\n'
            } else if escaped == 'r' {
                '\r'
            } else if escaped == 't' {
                '\t'
            } else if escaped == '0' {
                '\0'
            } else {
                escaped
            };
            Ok((Some(Piece::Char(plain)), i + 2))
        } else {
            Ok((None, i + 1))
        }
    } else {
        Ok((Some(Piece::Char(c)), i + 1))
    }
}

/// The pieces read so far, then what stands next, then the rest: that is
/// the pieces read so far with what stands next, then the rest.
proof fn lemma_piece_read(
    before: Seq<Piece>,
    piece: Option<Piece>,
    after: Seq<Piece>,
    rest: Seq<PieceView>,
)
    requires
        after == match piece {
            Some(p) => before.push(p),
            None => before,
        },
    ensures
        piece_views(before) + (piece_seq(piece_option_view(piece)) + rest) == piece_views(after)
            + rest,
{
    assert(piece_views(before) + (piece_seq(piece_option_view(piece)) + rest) =~= piece_views(
        after,
    ) + rest);
}

/// Reads the literal `lit`, as it is written in the source text, into the
/// pieces that it stands for.
///
/// A literal that does not begin with a double quote is a raw string and is
/// taken as it is written. In any other literal `$name` and `${name}` stand
/// for the value of a variable, and a backslash begins an escape.
pub fn parse_str_lit(lit: &str) -> (r: Result<Vec<Piece>, LiteralError>)
    ensures
        match literal_pieces(lit@) {
            Ok(pieces) => r matches Ok(p) && piece_views(p@) == pieces,
            Err(e) => r == Err::<Vec<Piece>, LiteralError>(e),
        },
{
    let chars = to_chars(lit);
    let mut out: Vec<Piece> = Vec::new();
    if chars.len() == 0 || chars[0] != '"' {
        out.push(Piece::Raw(String::from_str(lit)));
        proof {
            assert(piece_views(out@) =~= seq![PieceView::Raw(lit@)]);
        }
        return Ok(out);
    }
    if chars.len() < 2 {
        return Err(LiteralError::BadSubstitution);
    }
    let limit = chars.len() - 1;
    let mut i: usize = 1;
    while i < limit
        invariant
            1 <= i <= limit,
            limit == chars.len() - 1,
            chars@ == lit@,
            literal_pieces(lit@) == match pieces_from(chars@, i as int, limit as int) {
                Ok(rest) => Ok::<Seq<PieceView>, LiteralError>(piece_views(out@) + rest),
                Err(e) => Err(e),
            },
        decreases limit - i,
    {
        let ghost before = out@;
        match read_piece(lit, &chars, i, limit) {
            Err(e) => {
                return Err(e);
            },
            Ok((piece, after)) => {
                let ghost read = piece;
                match piece {
                    Some(p) => {
                        out.push(p);
                    },
                    None => {},
                }
                proof {
                    match pieces_from(chars@, after as int, limit as int) {
                        Ok(rest) => {
                            lemma_piece_read(before, read, out@, rest);
                        },
                        Err(_) => {},
                    }
                }
                i = after;
            },
        }
    }
    proof {
        assert(piece_views(out@) + Seq::<PieceView>::empty() =~= piece_views(out@));
    }
    Ok(out)
}

/// The text of a fault, as it is shown to the writer of the command line.
pub open spec fn fault_text(fault: LexFault) -> Seq<char> {
    match fault {
        LexFault::Grouping => "grouping is only allowed for variables"@,
        LexFault::RedirectFormat => "wrong input redirect format"@,
        LexFault::NoCommandAfterPipe => "expect new command after '|'"@,
        LexFault::SecondOr => "only one || is allowed"@,
        LexFault::Punctuation => "invalid punctuation"@,
        LexFault::LiteralAfterAmpersand => "invalid literal string after &"@,
        LexFault::StreamNumber => "Only &1 or &2 is supported"@,
        LexFault::TokenAfterAmpersand => "invalid token after '&'"@,
        LexFault::GroupInParentheses =>
            "invalid grouping: found \"parenthesis\", only \"brace/bracket\" is allowed"@,
        LexFault::GroupWithoutBrackets =>
            "invalid grouping: found \"none\", only \"brace/bracket\" is allowed"@,
        LexFault::SecondVariable => "more than one variable in grouping"@,
        LexFault::VectorNotAlone => "vector variable can only be used alone"@,
        LexFault::ExtraTokens => "invalid grouping: extra tokens"@,
        LexFault::TokenAfterDollar => "invalid token after $"@,
        LexFault::BadSubstitution => "bad substitution"@,
        LexFault::BadVariable => "bad variable name"@,
    }
}

impl LexError {
    /// The text of the fault.
    pub fn message(&self) -> (r: &'static str)
        ensures
            r@ == fault_text(self.fault),
    {
        match self.fault {
            LexFault::Grouping => "grouping is only allowed for variables",
            LexFault::RedirectFormat => "wrong input redirect format",
            LexFault::NoCommandAfterPipe => "expect new command after '|'",
            LexFault::SecondOr => "only one || is allowed",
            LexFault::Punctuation => "invalid punctuation",
            LexFault::LiteralAfterAmpersand => "invalid literal string after &",
            LexFault::StreamNumber => "Only &1 or &2 is supported",
            LexFault::TokenAfterAmpersand => "invalid token after '&'",
            LexFault::GroupInParentheses =>
                "invalid grouping: found \"parenthesis\", only \"brace/bracket\" is allowed",
            LexFault::GroupWithoutBrackets =>
                "invalid grouping: found \"none\", only \"brace/bracket\" is allowed",
            LexFault::SecondVariable => "more than one variable in grouping",
            LexFault::VectorNotAlone => "vector variable can only be used alone",
            LexFault::ExtraTokens => "invalid grouping: extra tokens",
            LexFault::TokenAfterDollar => "invalid token after $",
            LexFault::BadSubstitution => "bad substitution",
            LexFault::BadVariable => "bad variable name",
        }
    }
}

/// What ends an argument.
#[derive(Clone, Copy, Debug, PartialEq, Eq, Structural)]
pub enum SepToken {
    Space,
    SemiColon,
    Or,
    Pipe,
}

/// The scanner as contracts see it.
pub struct LexerView {
    /// What has been scanned.
    pub args: Seq<ParseArgView>,
    /// The pieces of the argument that is being read; `None` between
    /// arguments.
    pub last_arg: Option<Seq<PieceView>>,
    /// The redirect whose file is being read.
    pub last_redirect: Option<RedirectFd>,
    /// Whether `||` may still come in the chain that is being read.
    pub allow_or: bool,
}

/// Whether the literal is a string: it begins with a double quote, or with
/// the `r` of a raw string.
pub open spec fn is_string_literal(lit: Seq<char>) -> bool {
    lit.len() > 0 && (lit[0] == '"' || lit[0] == 'r')
}

/// Whether the token at position `next` touches the text at `cur`: there
/// is such a token, and it does not begin after the end of `cur`.
pub open spec fn adjacent(tokens: Seq<TokenView>, next: int, cur: Span) -> bool {
    0 <= next < tokens.len() && tokens[next].span().start <= cur.end
}

/// Whether the token is the punctuation `ch`.
pub open spec fn is_punct(token: TokenView, ch: char) -> bool {
    match token {
        TokenView::Punct(c, _) => c == ch,
        _ => false,
    }
}

/// Whether the token at position `next` touches the text at `cur` and is
/// the punctuation `ch`.
pub open spec fn adjacent_punct(tokens: Seq<TokenView>, next: int, cur: Span, ch: char) -> bool {
    adjacent(tokens, next, cur) && is_punct(tokens[next], ch)
}

/// Whether a second `>` follows, which makes a redirect append, and where
/// the tokens go on.
pub open spec fn check_append(tokens: Seq<TokenView>, next: int, cur: Span) -> (bool, int) {
    if adjacent_punct(tokens, next, cur, '>') {
        (true, next + 1)
    } else {
        (false, next)
    }
}

impl LexerView {
    /// The scanner before anything has been read.
    pub open spec fn start() -> LexerView {
        LexerView { args: Seq::empty(), last_arg: None, last_redirect: None, allow_or: true }
    }

    /// The scanner after a redirect has begun. A redirect may not begin
    /// while another waits for its file.
    pub open spec fn set_redirect(self, span: Span, fd: RedirectFd) -> Result<LexerView, LexError> {
        if self.last_redirect is Some {
            Err(LexError { fault: LexFault::RedirectFormat, span })
        } else {
            Ok(LexerView { last_redirect: Some(fd), ..self })
        }
    }

    /// The pieces of the argument that is being read.
    pub open spec fn pieces(self) -> Seq<PieceView> {
        match self.last_arg {
            Some(pieces) => pieces,
            None => Seq::empty(),
        }
    }

    /// The scanner after the argument that is being read has ended with
    /// `token`. Where a redirect waits for its file, the argument is that
    /// file; the redirect of both output streams gives two redirects:
    /// standard output to the file, then standard error to the same file,
    /// appending.
    pub open spec fn add_arg_with_token(self, token: SepToken) -> LexerView {
        let args = match self.last_redirect {
            Some(fd) => {
                if fd is StdoutErr {
                    self.args.push(
                        ParseArgView::ParseRedirectFile(1, self.pieces(), fd.append()),
                    ).push(ParseArgView::ParseRedirectFile(2, self.pieces(), true))
                } else {
                    self.args.push(
                        ParseArgView::ParseRedirectFile(fd.id() as i32, self.pieces(), fd.append()),
                    )
                }
            },
            None => match self.last_arg {
                Some(pieces) => self.args.push(ParseArgView::ParseArgStr(pieces)),
                None => self.args,
            },
        };
        let args = match token {
            SepToken::Space => args,
            SepToken::SemiColon => args.push(ParseArgView::ParseSemicolon),
            SepToken::Or => args.push(ParseArgView::ParseOr),
            SepToken::Pipe => args.push(ParseArgView::ParsePipe),
        };
        LexerView { args, last_arg: None, last_redirect: None, ..self }
    }

    /// The scanner after one stream was made an alias of another.
    pub open spec fn add_fd_redirect_arg(self, old_fd: i32, new_fd: i32) -> LexerView {
        LexerView {
            args: self.args.push(ParseArgView::ParseRedirectFd(old_fd, new_fd)),
            last_redirect: None,
            ..self
        }
    }

    /// The scanner after `pieces` were added to the argument that is being
    /// read.
    pub open spec fn extend_last_arg(self, pieces: Seq<PieceView>) -> LexerView {
        LexerView { last_arg: Some(self.pieces() + pieces), ..self }
    }

    /// The scanner after the tokens from position `k` on of a group after
    /// `$` have been read; `found` says whether a name has come. In braces
    /// the name stands for the variable's value; in square brackets for a
    /// list of arguments, which can only stand alone.
    pub open spec fn scan_group(
        self,
        delimiter: Delimiter,
        items: Seq<InnerView>,
        k: int,
        found: bool,
    ) -> Result<LexerView, LexError>
        decreases items.len() - k,
    {
        if k < 0 || k >= items.len() {
            Ok(self)
        } else {
            match items[k] {
                InnerView::Ident(name, span) => {
                    if found {
                        Err(LexError { fault: LexFault::SecondVariable, span })
                    } else if delimiter == Delimiter::Brace {
                        self.extend_last_arg(seq![PieceView::Var(name)]).scan_group(
                            delimiter,
                            items,
                            k + 1,
                            true,
                        )
                    } else if self.last_arg is Some {
                        Err(LexError { fault: LexFault::VectorNotAlone, span })
                    } else {
                        (LexerView {
                            args: self.args.push(ParseArgView::ParseArgVec(name)),
                            ..self
                        }).scan_group(delimiter, items, k + 1, true)
                    }
                },
                InnerView::Other(span) => Err(LexError { fault: LexFault::ExtraTokens, span }),
            }
        }
    }

    /// The scanner after the literal at position `i` has been read, and
    /// where the tokens go on. A string gives its pieces. `1` and `2` with
    /// `>` right behind begin a redirect of standard output and of standard
    /// error. Any other literal stands for its value.
    pub open spec fn scan_literal(self, tokens: Seq<TokenView>, i: int, lit: Seq<char>, span: Span) -> Result<
        (LexerView, int),
        LexError,
    > {
        if is_string_literal(lit) {
            match literal_pieces(lit) {
                Ok(pieces) => Ok((self.extend_last_arg(pieces), i + 1)),
                Err(LiteralError::BadSubstitution) => Err(
                    LexError { fault: LexFault::BadSubstitution, span },
                ),
                Err(LiteralError::BadVariable) => Err(
                    LexError { fault: LexFault::BadVariable, span },
                ),
            }
        } else if (lit == "1"@ || lit == "2"@) && adjacent_punct(tokens, i + 1, span, '>') {
            let (append, next) = check_append(tokens, i + 2, span);
            let fd = if lit == "1"@ {
                RedirectFd::Stdout(append)
            } else {
                RedirectFd::Stderr(append)
            };
            match self.set_redirect(span, fd) {
                Ok(lexer) => Ok((lexer, next)),
                Err(e) => Err(e),
            }
        } else {
            Ok((self.extend_last_arg(seq![PieceView::Literal(lit)]), i + 1))
        }
    }

    /// The scanner after the `|` at position `i` has been read, and where
    /// the tokens go on. A second `|` right behind makes it `||`, of which
    /// a chain may hold one. A command must follow.
    pub open spec fn scan_bar(self, tokens: Seq<TokenView>, i: int, span: Span) -> Result<
        (LexerView, int),
        LexError,
    > {
        let is_pipe = !adjacent_punct(tokens, i + 1, span, '|');
        let next = if is_pipe {
            i + 1
        } else {
            i + 2
        };
        if next >= tokens.len() {
            Err(LexError { fault: LexFault::NoCommandAfterPipe, span })
        } else if is_punct(tokens[next], '|') {
            Err(LexError { fault: LexFault::NoCommandAfterPipe, span: tokens[next].span() })
        } else if is_pipe {
            Ok((self.add_arg_with_token(SepToken::Pipe), next))
        } else if !self.allow_or {
            Err(LexError { fault: LexFault::SecondOr, span })
        } else {
            Ok(((LexerView { allow_or: false, ..self }).add_arg_with_token(SepToken::Or), next))
        }
    }

    /// The scanner after the `&` at position `i` has been read, and where
    /// the tokens go on. `&>` begins the redirect of both output streams
    /// to one file; `&1` and `&2` make standard error an alias of standard
    /// output, and the other way round. The number itself is read again as
    /// the next token.
    pub open spec fn scan_ampersand(self, tokens: Seq<TokenView>, i: int, span: Span) -> Result<
        (LexerView, int),
        LexError,
    > {
        if !adjacent(tokens, i + 1, span) {
            Err(LexError { fault: LexFault::TokenAfterAmpersand, span })
        } else {
            match tokens[i + 1] {
                TokenView::Punct(c, at) => {
                    if c == '>' {
                        let (append, next) = check_append(tokens, i + 2, span);
                        match self.set_redirect(span, RedirectFd::StdoutErr(append)) {
                            Ok(lexer) => Ok((lexer, next)),
                            Err(e) => Err(e),
                        }
                    } else {
                        Err(LexError { fault: LexFault::Punctuation, span: at })
                    }
                },
                TokenView::Literal(lit, at) => {
                    if is_string_literal(lit) {
                        Err(LexError { fault: LexFault::LiteralAfterAmpersand, span: at })
                    } else if lit == "1"@ {
                        Ok((self.add_fd_redirect_arg(2, 1), i + 1))
                    } else if lit == "2"@ {
                        Ok((self.add_fd_redirect_arg(1, 2), i + 1))
                    } else {
                        Err(LexError { fault: LexFault::StreamNumber, span: at })
                    }
                },
                _ => Err(LexError { fault: LexFault::TokenAfterAmpersand, span }),
            }
        }
    }

    /// The scanner after the `$` at position `i` and what it introduces
    /// have been read, and where the tokens go on. A name right behind
    /// stands for the variable's value; so does a name in braces; a name in
    /// square brackets stands for a list of arguments.
    pub open spec fn scan_dollar(self, tokens: Seq<TokenView>, i: int, span: Span) -> Result<
        (LexerView, int),
        LexError,
    > {
        if !adjacent(tokens, i + 1, span) {
            Err(LexError { fault: LexFault::TokenAfterDollar, span })
        } else {
            match tokens[i + 1] {
                TokenView::Ident(name, _) => Ok(
                    (self.extend_last_arg(seq![PieceView::Var(name)]), i + 2),
                ),
                TokenView::Group(delimiter, items, at) => {
                    if delimiter == Delimiter::Parenthesis {
                        Err(LexError { fault: LexFault::GroupInParentheses, span: at })
                    } else if delimiter == Delimiter::Invisible {
                        Err(LexError { fault: LexFault::GroupWithoutBrackets, span: at })
                    } else {
                        match self.scan_group(delimiter, items, 0, false) {
                            Ok(lexer) => Ok((lexer, i + 2)),
                            Err(e) => Err(e),
                        }
                    }
                },
                _ => Err(LexError { fault: LexFault::TokenAfterDollar, span }),
            }
        }
    }

    /// The scanner after the punctuation `ch` at position `i` has been
    /// read, and where the tokens go on.
    pub open spec fn scan_punct(self, tokens: Seq<TokenView>, i: int, ch: char, span: Span) -> Result<
        (LexerView, int),
        LexError,
    > {
        if ch == ';' {
            Ok(((LexerView { allow_or: true, ..self.add_arg_with_token(SepToken::SemiColon) }), i + 1))
        } else if ch == '|' {
            self.scan_bar(tokens, i, span)
        } else if ch == '<' {
            match self.set_redirect(span, RedirectFd::Stdin) {
                Ok(lexer) => Ok((lexer, i + 1)),
                Err(e) => Err(e),
            }
        } else if ch == '>' {
            let (append, next) = check_append(tokens, i + 1, span);
            match self.set_redirect(span, RedirectFd::Stdout(append)) {
                Ok(lexer) => Ok((lexer, next)),
                Err(e) => Err(e),
            }
        } else if ch == '&' {
            self.scan_ampersand(tokens, i, span)
        } else if ch == '$' {
            self.scan_dollar(tokens, i, span)
        } else {
            Ok((self.extend_last_arg(seq![PieceView::Char(ch)]), i + 1))
        }
    }

    /// The scanner after the token at position `i` has been read, and where
    /// the tokens go on. Where the next token does not touch this one, the
    /// argument that is being read ends.
    pub open spec fn scan_token(self, tokens: Seq<TokenView>, i: int) -> Result<
        (LexerView, int),
        LexError,
    > {
        let read = match tokens[i] {
            TokenView::Group(_, _, span) => Err(LexError { fault: LexFault::Grouping, span }),
            TokenView::Literal(lit, span) => self.scan_literal(tokens, i, lit, span),
            TokenView::Ident(name, _) => Ok(
                (self.extend_last_arg(seq![PieceView::Text(name)]), i + 1),
            ),
            TokenView::Punct(ch, span) => self.scan_punct(tokens, i, ch, span),
        };
        match read {
            Ok((lexer, next)) => {
                if !adjacent(tokens, next, tokens[i].span()) && lexer.last_arg is Some {
                    Ok((lexer.add_arg_with_token(SepToken::Space), next))
                } else {
                    Ok((lexer, next))
                }
            },
            Err(e) => Err(e),
        }
    }

    /// What the tokens from position `i` on are scanned to.
    pub open spec fn scan_from(self, tokens: Seq<TokenView>, i: int) -> Result<
        Seq<ParseArgView>,
        LexError,
    >
        decreases tokens.len() - i,
    {
        if i < 0 || i >= tokens.len() {
            Ok(self.add_arg_with_token(SepToken::Space).args)
        } else {
            match self.scan_token(tokens, i) {
                Ok((lexer, next)) => {
                    if i < next <= tokens.len() {
                        lexer.scan_from(tokens, next)
                    } else {
                        Ok(lexer.add_arg_with_token(SepToken::Space).args)
                    }
                },
                Err(e) => Err(e),
            }
        }
    }
}

/// The view of the pieces of an argument that may be there.
pub open spec fn last_arg_view(last_arg: Option<Vec<Piece>>) -> Option<Seq<PieceView>> {
    match last_arg {
        Some(pieces) => Some(piece_views(pieces@)),
        None => None,
    }
}

/// The scanner: what has been scanned so far, and the argument and the
/// redirect that are being read.
#[derive(Debug)]
pub struct Lexer {
    args: Vec<ParseArg>,
    last_arg_str: Option<Vec<Piece>>,
    last_redirect: Option<RedirectFd>,
    allow_or: bool,
}

impl View for Lexer {
    type V = LexerView;

    closed spec fn view(&self) -> LexerView {
        LexerView {
            args: arg_views(self.args@),
            last_arg: last_arg_view(self.last_arg_str),
            last_redirect: self.last_redirect,
            allow_or: self.allow_or,
        }
    }
}

impl Default for Lexer {
    /// The scanner before anything has been read.
    fn default() -> (r: Lexer)
        ensures
            r@ == LexerView::start(),
    {
        let r = Lexer { args: Vec::new(), last_arg_str: None, last_redirect: None, allow_or: true };
        proof {
            assert(r@.args =~= Seq::<ParseArgView>::empty());
        }
        r
    }
}

fn copy_piece(piece: &Piece) -> (r: Piece)
    ensures
        r@ == piece@,
{
    match piece {
        Piece::Char(c) => Piece::Char(*c),
        Piece::Text(text) => Piece::Text(text.clone()),
        Piece::Var(name) => Piece::Var(name.clone()),
        Piece::Literal(text) => Piece::Literal(text.clone()),
        Piece::Raw(text) => Piece::Raw(text.clone()),
    }
}

fn copy_pieces(pieces: &Vec<Piece>) -> (r: Vec<Piece>)
    ensures
        piece_views(r@) == piece_views(pieces@),
{
    let mut out: Vec<Piece> = Vec::new();
    let mut i: usize = 0;
    while i < pieces.len()
        invariant
            i <= pieces.len(),
            out.len() == i,
            forall|k: int| 0 <= k < i ==> out@[k]@ == pieces@[k]@,
        decreases pieces.len() - i,
    {
        out.push(copy_piece(&pieces[i]));
        i += 1;
    }
    proof {
        assert(piece_views(out@) =~= piece_views(pieces@));
    }
    out
}

fn is_string(lit: &str, chars: &Vec<char>) -> (r: bool)
    requires
        chars@ == lit@,
    ensures
        r == is_string_literal(lit@),
{
    chars.len() > 0 && (chars[0] == '"' || chars[0] == 'r')
}

fn touches(tokens: &Vec<Token>, next: usize, cur: Span) -> (r: bool)
    ensures
        r == adjacent(token_views(tokens@), next as int, cur),
{
    next < tokens.len() && tokens[next].span().start <= cur.end
}

fn touches_punct(tokens: &Vec<Token>, next: usize, cur: Span, ch: char) -> (r: bool)
    ensures
        r == adjacent_punct(token_views(tokens@), next as int, cur, ch),
{
    if !touches(tokens, next, cur) {
        return false;
    }
    match &tokens[next] {
        Token::Punct(c, _) => *c == ch,
        _ => false,
    }
}

fn read_append(tokens: &Vec<Token>, next: usize, cur: Span) -> (r: (bool, usize))
    requires
        next <= tokens.len(),
    ensures
        r.0 == check_append(token_views(tokens@), next as int, cur).0,
        r.1 == check_append(token_views(tokens@), next as int, cur).1,
        next <= r.1 <= tokens.len(),
{
    if touches_punct(tokens, next, cur, '>') {
        (true, next + 1)
    } else {
        (false, next)
    }
}

impl Lexer {
    fn set_redirect(self, span: Span, fd: RedirectFd) -> (r: Result<Lexer, LexError>)
        ensures
            match self@.set_redirect(span, fd) {
                Ok(lexer) => r matches Ok(l) && l@ == lexer,
                Err(e) => r matches Err(f) && f == e,
            },
    {
        if self.last_redirect.is_some() {
            Err(LexError { fault: LexFault::RedirectFormat, span })
        } else {
            let Lexer { args, last_arg_str, last_redirect: _, allow_or } = self;
            Ok(Lexer { args, last_arg_str, last_redirect: Some(fd), allow_or })
        }
    }

    fn add_arg_with_token(self, token: SepToken) -> (r: Lexer)
        ensures
            r@ == self@.add_arg_with_token(token),
    {
        let ghost before = self@;
        let Lexer { mut args, last_arg_str, last_redirect, allow_or } = self;
        match last_redirect {
            Some(fd) => {
                let file = match last_arg_str {
                    Some(pieces) => pieces,
                    None => Vec::new(),
                };
                proof {
                    assert(piece_views(file@) =~= before.pieces());
                }
                let both = matches!(fd, RedirectFd::StdoutErr(_));
                let second = if both {
                    Some(copy_pieces(&file))
                } else {
                    None
                };
                let ghost pushed_on = args@;
                let stream: i32 = if both {
                    1
                } else {
                    fd.get_id()
                };
                let first = ParseArg::ParseRedirectFile(stream, file, fd.get_append());
                let ghost first_view = first@;
                args.push(first);
                proof {
                    assert(arg_views(args@) =~= arg_views(pushed_on).push(first_view));
                }
                match second {
                    Some(file) => {
                        let ghost pushed_on = args@;
                        let arg = ParseArg::ParseRedirectFile(2, file, true);
                        let ghost arg_view = arg@;
                        args.push(arg);
                        proof {
                            assert(arg_views(args@) =~= arg_views(pushed_on).push(arg_view));
                        }
                    },
                    None => {},
                }
            },
            None => match last_arg_str {
                Some(pieces) => {
                    let ghost pushed_on = args@;
                    let arg = ParseArg::ParseArgStr(pieces);
                    let ghost arg_view = arg@;
                    args.push(arg);
                    proof {
                        assert(arg_views(args@) =~= arg_views(pushed_on).push(arg_view));
                    }
                },
                None => {},
            },
        }
        let ghost pushed_on = args@;
        match token {
            SepToken::Space => {},
            SepToken::SemiColon => {
                args.push(ParseArg::ParseSemicolon);
                proof {
                    assert(arg_views(args@) =~= arg_views(pushed_on).push(
                        ParseArgView::ParseSemicolon,
                    ));
                }
            },
            SepToken::Or => {
                args.push(ParseArg::ParseOr);
                proof {
                    assert(arg_views(args@) =~= arg_views(pushed_on).push(ParseArgView::ParseOr));
                }
            },
            SepToken::Pipe => {
                args.push(ParseArg::ParsePipe);
                proof {
                    assert(arg_views(args@) =~= arg_views(pushed_on).push(ParseArgView::ParsePipe));
                }
            },
        }
        Lexer { args, last_arg_str: None, last_redirect: None, allow_or }
    }

    fn add_fd_redirect_arg(self, old_fd: i32, new_fd: i32) -> (r: Lexer)
        ensures
            r@ == self@.add_fd_redirect_arg(old_fd, new_fd),
    {
        let Lexer { mut args, last_arg_str, last_redirect: _, allow_or } = self;
        let ghost pushed_on = args@;
        args.push(ParseArg::ParseRedirectFd(old_fd, new_fd));
        proof {
            assert(arg_views(args@) =~= arg_views(pushed_on).push(
                ParseArgView::ParseRedirectFd(old_fd, new_fd),
            ));
        }
        Lexer { args, last_arg_str, last_redirect: None, allow_or }
    }

    fn extend_last_arg(self, pieces: Vec<Piece>) -> (r: Lexer)
        ensures
            r@ == self@.extend_last_arg(piece_views(pieces@)),
    {
        let ghost before = self@;
        let ghost added = piece_views(pieces@);
        let Lexer { args, last_arg_str, last_redirect, allow_or } = self;
        let mut pieces = pieces;
        let joined = match last_arg_str {
            Some(mut have) => {
                let ghost had = have@;
                let ghost more = pieces@;
                have.append(&mut pieces);
                proof {
                    assert(piece_views(have@) =~= piece_views(had) + piece_views(more));
                }
                have
            },
            None => {
                proof {
                    assert(Seq::<PieceView>::empty() + added =~= added);
                }
                pieces
            },
        };
        Lexer { args, last_arg_str: Some(joined), last_redirect, allow_or }
    }

    fn extend_with(self, piece: Piece) -> (r: Lexer)
        ensures
            r@ == self@.extend_last_arg(seq![piece@]),
    {
        let ghost shown = piece@;
        let mut pieces: Vec<Piece> = Vec::new();
        pieces.push(piece);
        proof {
            assert(piece_views(pieces@) =~= seq![shown]);
        }
        self.extend_last_arg(pieces)
    }

    fn scan_group(self, delimiter: Delimiter, items: &Vec<Inner>) -> (r: Result<Lexer, LexError>)
        ensures
            match self@.scan_group(delimiter, inner_views(items@), 0, false) {
                Ok(lexer) => r matches Ok(l) && l@ == lexer,
                Err(e) => r matches Err(f) && f == e,
            },
    {
        let ghost start = self@;
        let ghost views = inner_views(items@);
        let mut lexer = self;
        let mut found = false;
        let mut k: usize = 0;
        while k < items.len()
            invariant
                k <= items.len(),
                views == inner_views(items@),
                start == self@,
                start.scan_group(delimiter, views, 0, false) == lexer@.scan_group(
                    delimiter,
                    views,
                    k as int,
                    found,
                ),
            decreases items.len() - k,
        {
            proof {
                assert(views[k as int] == items@[k as int]@);
            }
            match &items[k] {
                Inner::Ident(name, span) => {
                    if found {
                        return Err(LexError { fault: LexFault::SecondVariable, span: *span });
                    }
                    if matches!(delimiter, Delimiter::Brace) {
                        lexer = lexer.extend_with(Piece::Var(name.clone()));
                    } else {
                        if lexer.last_arg_str.is_some() {
                            return Err(LexError { fault: LexFault::VectorNotAlone, span: *span });
                        }
                        let Lexer { mut args, last_arg_str, last_redirect, allow_or } = lexer;
                        let ghost pushed_on = args@;
                        args.push(ParseArg::ParseArgVec(name.clone()));
                        proof {
                            assert(arg_views(args@) =~= arg_views(pushed_on).push(
                                ParseArgView::ParseArgVec(name@),
                            ));
                        }
                        lexer = Lexer { args, last_arg_str, last_redirect, allow_or };
                    }
                    found = true;
                },
                Inner::Other(span) => {
                    return Err(LexError { fault: LexFault::ExtraTokens, span: *span });
                },
            }
            k += 1;
        }
        Ok(lexer)
    }

    fn scan_literal(self, tokens: &Vec<Token>, i: usize, lit: &str, span: Span) -> (r: Result<
        (Lexer, usize),
        LexError,
    >)
        requires
            i < tokens.len(),
        ensures
            match self@.scan_literal(token_views(tokens@), i as int, lit@, span) {
                Ok((lexer, next)) => r matches Ok(found) && found.0@ == lexer && found.1 == next
                    && i < found.1 <= tokens.len(),
                Err(e) => r matches Err(f) && f == e,
            },
    {
        let chars = to_chars(lit);
        if is_string(lit, &chars) {
            match parse_str_lit(lit) {
                Ok(pieces) => Ok((self.extend_last_arg(pieces), i + 1)),
                Err(LiteralError::BadSubstitution) => Err(
                    LexError { fault: LexFault::BadSubstitution, span },
                ),
                Err(LiteralError::BadVariable) => Err(
                    LexError { fault: LexFault::BadVariable, span },
                ),
            }
        } else {
            let one = lit.eq("1");
            if (one || lit.eq("2")) && touches_punct(tokens, i + 1, span, '>') {
                let (append, next) = read_append(tokens, i + 2, span);
                let fd = if one {
                    RedirectFd::Stdout(append)
                } else {
                    RedirectFd::Stderr(append)
                };
                match self.set_redirect(span, fd) {
                    Ok(lexer) => Ok((lexer, next)),
                    Err(e) => Err(e),
                }
            } else {
                Ok((self.extend_with(Piece::Literal(String::from_str(lit))), i + 1))
            }
        }
    }

    fn scan_bar(self, tokens: &Vec<Token>, i: usize, span: Span) -> (r: Result<
        (Lexer, usize),
        LexError,
    >)
        requires
            i < tokens.len(),
        ensures
            match self@.scan_bar(token_views(tokens@), i as int, span) {
                Ok((lexer, next)) => r matches Ok(found) && found.0@ == lexer && found.1 == next
                    && i < found.1 <= tokens.len(),
                Err(e) => r matches Err(f) && f == e,
            },
    {
        let is_pipe = !touches_punct(tokens, i + 1, span, '|');
        let next = if is_pipe {
            i + 1
        } else {
            i + 2
        };
        if next >= tokens.len() {
            return Err(LexError { fault: LexFault::NoCommandAfterPipe, span });
        }
        proof {
            assert(token_views(tokens@)[next as int] == tokens@[next as int]@);
        }
        match &tokens[next] {
            Token::Punct(c, at) => {
                if *c == '|' {
                    return Err(LexError { fault: LexFault::NoCommandAfterPipe, span: *at });
                }
            },
            _ => {},
        }
        if is_pipe {
            Ok((self.add_arg_with_token(SepToken::Pipe), next))
        } else if !self.allow_or {
            Err(LexError { fault: LexFault::SecondOr, span })
        } else {
            let Lexer { args, last_arg_str, last_redirect, allow_or: _ } = self;
            let lexer = Lexer { args, last_arg_str, last_redirect, allow_or: false };
            Ok((lexer.add_arg_with_token(SepToken::Or), next))
        }
    }

    fn scan_ampersand(self, tokens: &Vec<Token>, i: usize, span: Span) -> (r: Result<
        (Lexer, usize),
        LexError,
    >)
        requires
            i < tokens.len(),
        ensures
            match self@.scan_ampersand(token_views(tokens@), i as int, span) {
                Ok((lexer, next)) => r matches Ok(found) && found.0@ == lexer && found.1 == next
                    && i < found.1 <= tokens.len(),
                Err(e) => r matches Err(f) && f == e,
            },
    {
        if !touches(tokens, i + 1, span) {
            return Err(LexError { fault: LexFault::TokenAfterAmpersand, span });
        }
        proof {
            assert(token_views(tokens@)[i + 1] == tokens@[i + 1]@);
        }
        match &tokens[i + 1] {
            Token::Punct(c, at) => {
                if *c == '>' {
                    let (append, next) = read_append(tokens, i + 2, span);
                    match self.set_redirect(span, RedirectFd::StdoutErr(append)) {
                        Ok(lexer) => Ok((lexer, next)),
                        Err(e) => Err(e),
                    }
                } else {
                    Err(LexError { fault: LexFault::Punctuation, span: *at })
                }
            },
            Token::Literal(lit, at) => {
                let chars = to_chars(lit.as_str());
                if is_string(lit.as_str(), &chars) {
                    Err(LexError { fault: LexFault::LiteralAfterAmpersand, span: *at })
                } else if lit.as_str().eq("1") {
                    Ok((self.add_fd_redirect_arg(2, 1), i + 1))
                } else if lit.as_str().eq("2") {
                    Ok((self.add_fd_redirect_arg(1, 2), i + 1))
                } else {
                    Err(LexError { fault: LexFault::StreamNumber, span: *at })
                }
            },
            _ => Err(LexError { fault: LexFault::TokenAfterAmpersand, span }),
        }
    }

    fn scan_dollar(self, tokens: &Vec<Token>, i: usize, span: Span) -> (r: Result<
        (Lexer, usize),
        LexError,
    >)
        requires
            i < tokens.len(),
        ensures
            match self@.scan_dollar(token_views(tokens@), i as int, span) {
                Ok((lexer, next)) => r matches Ok(found) && found.0@ == lexer && found.1 == next
                    && i < found.1 <= tokens.len(),
                Err(e) => r matches Err(f) && f == e,
            },
    {
        if !touches(tokens, i + 1, span) {
            return Err(LexError { fault: LexFault::TokenAfterDollar, span });
        }
        proof {
            assert(token_views(tokens@)[i + 1] == tokens@[i + 1]@);
        }
        match &tokens[i + 1] {
            Token::Ident(name, _) => Ok((self.extend_with(Piece::Var(name.clone())), i + 2)),
            Token::Group(delimiter, items, at) => {
                match delimiter {
                    Delimiter::Parenthesis => Err(
                        LexError { fault: LexFault::GroupInParentheses, span: *at },
                    ),
                    Delimiter::Invisible => Err(
                        LexError { fault: LexFault::GroupWithoutBrackets, span: *at },
                    ),
                    _ => match self.scan_group(*delimiter, items) {
                        Ok(lexer) => Ok((lexer, i + 2)),
                        Err(e) => Err(e),
                    },
                }
            },
            _ => Err(LexError { fault: LexFault::TokenAfterDollar, span }),
        }
    }

    fn scan_punct(self, tokens: &Vec<Token>, i: usize, ch: char, span: Span) -> (r: Result<
        (Lexer, usize),
        LexError,
    >)
        requires
            i < tokens.len(),
        ensures
            match self@.scan_punct(token_views(tokens@), i as int, ch, span) {
                Ok((lexer, next)) => r matches Ok(found) && found.0@ == lexer && found.1 == next
                    && i < found.1 <= tokens.len(),
                Err(e) => r matches Err(f) && f == e,
            },
    {
        if ch == ';' {
            let Lexer { args, last_arg_str, last_redirect, allow_or: _ } = self.add_arg_with_token(
                SepToken::SemiColon,
            );
            Ok((Lexer { args, last_arg_str, last_redirect, allow_or: true }, i + 1))
        } else if ch == '|' {
            self.scan_bar(tokens, i, span)
        } else if ch == '<' {
            match self.set_redirect(span, RedirectFd::Stdin) {
                Ok(lexer) => Ok((lexer, i + 1)),
                Err(e) => Err(e),
            }
        } else if ch == '>' {
            let (append, next) = read_append(tokens, i + 1, span);
            match self.set_redirect(span, RedirectFd::Stdout(append)) {
                Ok(lexer) => Ok((lexer, next)),
                Err(e) => Err(e),
            }
        } else if ch == '&' {
            self.scan_ampersand(tokens, i, span)
        } else if ch == '$' {
            self.scan_dollar(tokens, i, span)
        } else {
            Ok((self.extend_with(Piece::Char(ch)), i + 1))
        }
    }

    fn scan_token(self, tokens: &Vec<Token>, i: usize) -> (r: Result<(Lexer, usize), LexError>)
        requires
            i < tokens.len(),
        ensures
            match self@.scan_token(token_views(tokens@), i as int) {
                Ok((lexer, next)) => r matches Ok(found) && found.0@ == lexer && found.1 == next
                    && i < found.1 <= tokens.len(),
                Err(e) => r matches Err(f) && f == e,
            },
    {
        proof {
            assert(token_views(tokens@)[i as int] == tokens@[i as int]@);
        }
        let cur = tokens[i].span();
        let read = match &tokens[i] {
            Token::Group(_, _, span) => Err(LexError { fault: LexFault::Grouping, span: *span }),
            Token::Literal(lit, span) => self.scan_literal(tokens, i, lit.as_str(), *span),
            Token::Ident(name, _) => Ok((self.extend_with(Piece::Text(name.clone())), i + 1)),
            Token::Punct(ch, span) => self.scan_punct(tokens, i, *ch, *span),
        };
        match read {
            Ok((lexer, next)) => {
                if !touches(tokens, next, cur) && lexer.last_arg_str.is_some() {
                    Ok((lexer.add_arg_with_token(SepToken::Space), next))
                } else {
                    Ok((lexer, next))
                }
            },
            Err(e) => Err(e),
        }
    }

    /// Scans the tokens of a command line into what the commands are built
    /// from: arguments, redirects, and the separators of stages and chains.
    /// The first fault ends the scan.
    pub fn scan(self, input: Vec<Token>) -> (r: Result<Vec<ParseArg>, LexError>)
        ensures
            match self@.scan_from(token_views(input@), 0) {
                Ok(args) => r matches Ok(a) && arg_views(a@) == args,
                Err(e) => r matches Err(f) && f == e,
            },
    {
        let ghost start = self@;
        let ghost tokens = token_views(input@);
        let mut lexer = self;
        let mut i: usize = 0;
        while i < input.len()
            invariant
                i <= input.len(),
                tokens == token_views(input@),
                start == self@,
                start.scan_from(tokens, 0) == lexer@.scan_from(tokens, i as int),
            decreases input.len() - i,
        {
            match lexer.scan_token(&input, i) {
                Ok((scanned, next)) => {
                    lexer = scanned;
                    i = next;
                },
                Err(e) => {
                    return Err(e);
                },
            }
        }
        let done = lexer.add_arg_with_token(SepToken::Space);
        Ok(done.args)
    }
}

} // verus!
