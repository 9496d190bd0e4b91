use vstd::prelude::*;
use crate::ast::{Location, LocationView};
use crate::error::{ErrorKind, ErrorView, LangError, error_at};
use crate::support::{lemma_views_push, views};

verus! {

/// What `char::is_whitespace` of the standard library says of a character.
pub uninterp spec fn char_is_whitespace(c: char) -> bool;

/// What `char::is_alphabetic` of the standard library says of a character.
pub uninterp spec fn char_is_alphabetic(c: char) -> bool;

/// What `char::is_alphanumeric` of the standard library says of a character.
pub uninterp spec fn char_is_alphanumeric(c: char) -> bool;

/// What `char::is_numeric` of the standard library says of a character.
pub uninterp spec fn char_is_numeric(c: char) -> bool;

/// Calls `char::is_whitespace` of the standard library. Nothing is claimed
/// of the result but that it depends on the character alone.
#[verifier::external_body]
fn is_whitespace(c: char) -> (r: bool)
    ensures
        r == char_is_whitespace(c),
{
    c.is_whitespace()
}

/// Calls `char::is_alphabetic` of the standard library. Nothing is claimed
/// of the result but that it depends on the character alone.
#[verifier::external_body]
fn is_alphabetic(c: char) -> (r: bool)
    ensures
        r == char_is_alphabetic(c),
{
    c.is_alphabetic()
}

/// Calls `char::is_alphanumeric` of the standard library. Nothing is claimed
/// of the result but that it depends on the character alone.
#[verifier::external_body]
fn is_alphanumeric(c: char) -> (r: bool)
    ensures
        r == char_is_alphanumeric(c),
{
    c.is_alphanumeric()
}

/// Calls `char::is_numeric` of the standard library. Nothing is claimed of
/// the result but that it depends on the character alone.
#[verifier::external_body]
fn is_numeric(c: char) -> (r: bool)
    ensures
        r == char_is_numeric(c),
{
    c.is_numeric()
}

/// What the standard library says of a character: whether it is white
/// space, a letter, a letter or a digit, a digit.
#[derive(Debug, Clone, Copy, PartialEq, Eq, Structural)]
pub struct CharFacts {
    pub whitespace: bool,
    pub alphabetic: bool,
    pub alphanumeric: bool,
    pub numeric: bool,
}

/// What the standard library says of the character `c`.
pub open spec fn facts_of(c: char) -> CharFacts {
    CharFacts {
        whitespace: char_is_whitespace(c),
        alphabetic: char_is_alphabetic(c),
        alphanumeric: char_is_alphanumeric(c),
        numeric: char_is_numeric(c),
    }
}

/// What the standard library says of each of the characters.
pub open spec fn facts_seq(chars: Seq<char>) -> Seq<CharFacts> {
    Seq::new(chars.len(), |i: int| facts_of(chars[i]))
}

/// Asks the standard library about the character `c`.
pub fn classify(c: char) -> (r: CharFacts)
    ensures
        r == facts_of(c),
{
    CharFacts {
        whitespace: is_whitespace(c),
        alphabetic: is_alphabetic(c),
        alphanumeric: is_alphanumeric(c),
        numeric: is_numeric(c),
    }
}

/// Asks the standard library about each of the characters.
pub fn classify_all(chars: &Vec<char>) -> (r: Vec<CharFacts>)
    ensures
        r@ == facts_seq(chars@),
{
    let mut out: Vec<CharFacts> = Vec::new();
    let mut i: usize = 0;
    while i < chars.len()
        invariant
            i <= chars@.len(),
            out@.len() == i,
            forall|j: int| 0 <= j < i ==> out@[j] == facts_of(chars@[j]),
        decreases chars@.len() - i,
    {
        out.push(classify(chars[i]));
        i += 1;
    }
    assert(out@ =~= facts_seq(chars@));
    out
}

/// What a token is.
#[derive(Debug, Clone, Copy, PartialEq, Eq, Structural)]
pub enum TokenKind {
    Id,
    Symbol,
    Number,
    String,
    EOF,
}

/// A token: what it is, how it is written, and where. Of a number token
/// `bits` holds the 64 bits of the number that it spells; the lexer leaves
/// them 0, and the host fills them in before the tokens are parsed.
#[derive(Debug)]
pub struct Token {
    pub kind: TokenKind,
    pub value: String,
    pub location: Location,
    pub bits: u64,
}

/// The mathematical value of a [`Token`].
pub struct TokenView {
    pub kind: TokenKind,
    pub value: Seq<char>,
    pub location: LocationView,
    pub bits: u64,
}

impl View for Token {
    type V = TokenView;

    open spec fn view(&self) -> TokenView {
        TokenView {
            kind: self.kind,
            value: self.value@,
            location: self.location@,
            bits: self.bits,
        }
    }
}

impl Clone for Token {
    fn clone(&self) -> (r: Self)
        ensures
            r@ == self@,
    {
        Token {
            kind: self.kind,
            value: self.value.clone(),
            location: self.location.clone(),
            bits: self.bits,
        }
    }
}

impl Token {
    /// The failure to find what the grammar wants in place of this token.
    pub fn expected<T>(&self) -> (r: Result<T, LangError>)
        ensures
            match r {
                Err(e) => e@ == error_at(ErrorKind::UnexpectedToken, self.location@),
                Ok(_) => false,
            },
    {
        Err(LangError::at(ErrorKind::UnexpectedToken, &self.location))
    }
}

/// The classes of characters that the lexer tells apart.
#[derive(Debug, Clone, Copy, PartialEq, Eq, Structural)]
pub enum CharClass {
    Space,
    Letter,
    LetterOrDigit,
    Single,
    Merge,
    Digit,
    DigitOrDot,
    StringBody,
}

/// Whether the character is one of the symbols that stand alone.
pub open spec fn single_symbol(c: char) -> bool {
    c == '(' || c == ')' || c == '{' || c == '}' || c == '[' || c == ']' || c == ';' || c == ','
}

/// Whether the character is one of those that run together to a symbol.
pub open spec fn merge_symbol(c: char) -> bool {
    c == '=' || c == '+' || c == '-' || c == '*' || c == '/' || c == ':' || c == '<' || c == '>'
        || c == '!'
}

/// Whether the character `c`, of which the standard library says `facts`,
/// belongs to the class.
pub open spec fn in_class(c: char, facts: CharFacts, class: CharClass) -> bool {
    match class {
        CharClass::Space => facts.whitespace,
        CharClass::Letter => facts.alphabetic,
        CharClass::LetterOrDigit => facts.alphanumeric,
        CharClass::Single => single_symbol(c),
        CharClass::Merge => merge_symbol(c),
        CharClass::Digit => facts.numeric,
        CharClass::DigitOrDot => facts.numeric || c == '.',
        CharClass::StringBody => c != '"',
    }
}

/// Whether the character belongs to the class.
pub fn char_in(c: char, facts: CharFacts, class: CharClass) -> (r: bool)
    ensures
        r == in_class(c, facts, class),
{
    match class {
        CharClass::Space => facts.whitespace,
        CharClass::Letter => facts.alphabetic,
        CharClass::LetterOrDigit => facts.alphanumeric,
        CharClass::Single => c == '(' || c == ')' || c == '{' || c == '}' || c == '[' || c == ']'
            || c == ';' || c == ',',
        CharClass::Merge => c == '=' || c == '+' || c == '-' || c == '*' || c == '/' || c == ':'
            || c == '<' || c == '>' || c == '!',
        CharClass::Digit => facts.numeric,
        CharClass::DigitOrDot => facts.numeric || c == '.',
        CharClass::StringBody => c != '"',
    }
}

/// A text as the lexer sees it: its characters, and what the standard
/// library says of each.
pub struct Text {
    pub chars: Seq<char>,
    pub facts: Seq<CharFacts>,
}

impl Text {
    /// Every character has its facts.
    pub open spec fn wf(self) -> bool {
        self.facts.len() == self.chars.len()
    }

    /// The text of `chars`, with what the standard library says of them.
    pub open spec fn of(chars: Seq<char>) -> Text {
        Text { chars, facts: facts_seq(chars) }
    }

    /// Whether the character at `i` belongs to the class.
    pub open spec fn has(self, i: int, class: CharClass) -> bool {
        0 <= i < self.chars.len() && i < self.facts.len() && in_class(
            self.chars[i],
            self.facts[i],
            class,
        )
    }
}

/// Where the run of characters of `class` that starts at `i` ends.
pub open spec fn run_end(t: Text, i: int, class: CharClass) -> int
    decreases t.chars.len() - i,
{
    if t.has(i, class) {
        run_end(t, i + 1, class)
    } else {
        i
    }
}

/// The line of the character at `i`, counted from 1.
pub open spec fn line_of(chars: Seq<char>, i: int) -> int
    decreases i,
{
    if i <= 0 || i > chars.len() {
        1
    } else {
        line_of(chars, i - 1) + if chars[i - 1] == '\n' {
            1int
        } else {
            0int
        }
    }
}

/// The column of the character at `i`, counted from 1.
pub open spec fn column_of(chars: Seq<char>, i: int) -> int
    decreases i,
{
    if i <= 0 || i > chars.len() || chars[i - 1] == '\n' {
        1
    } else {
        column_of(chars, i - 1) + 1
    }
}

/// The place of the character at `i` in the source `src`.
pub open spec fn place(src: Seq<char>, chars: Seq<char>, i: int) -> LocationView {
    LocationView { src, x: column_of(chars, i) as usize, y: line_of(chars, i) as usize }
}

/// Line and column are no more than one beyond the number of characters
/// before them.
pub proof fn lemma_place_bounds(chars: Seq<char>, i: int)
    requires
        0 <= i <= chars.len(),
    ensures
        1 <= line_of(chars, i) <= i + 1,
        1 <= column_of(chars, i) <= i + 1,
    decreases i,
{
    if i > 0 {
        lemma_place_bounds(chars, i - 1);
    }
}

/// A run ends at or behind its start, and inside the text.
pub proof fn lemma_run_end(t: Text, i: int, class: CharClass)
    requires
        0 <= i <= t.chars.len(),
    ensures
        i <= run_end(t, i, class) <= t.chars.len(),
    decreases t.chars.len() - i,
{
    if t.has(i, class) {
        lemma_run_end(t, i + 1, class);
    }
}

/// The token of kind `kind` that the characters from `from` up to `to`
/// spell.
pub open spec fn word(src: Seq<char>, chars: Seq<char>, kind: TokenKind, from: int, to: int) -> TokenView {
    TokenView { kind, value: chars.subrange(from, to), location: place(src, chars, from), bits: 0 }
}

/// The token that marks the end of the source.
pub open spec fn end_token(src: Seq<char>, chars: Seq<char>) -> TokenView {
    TokenView {
        kind: TokenKind::EOF,
        value: "<EOF>"@,
        location: place(src, chars, chars.len() as int),
        bits: 0,
    }
}

/// The token that starts at `i`, where no white space stands, and where the
/// text goes on behind it: a string between quotes, a word that starts with
/// a letter, one of the symbols that stand alone, a run of the others, or a
/// number. A character that starts none of these is an error.
pub open spec fn token_spec(src: Seq<char>, t: Text, i: int) -> Result<(TokenView, int), ErrorView> {
    let chars = t.chars;
    if i < 0 || i >= chars.len() {
        Ok((end_token(src, chars), i))
    } else if chars[i] == '"' {
        let end = run_end(t, i + 1, CharClass::StringBody);
        if end >= chars.len() {
            Err(error_at(ErrorKind::UnterminatedString, place(src, chars, i)))
        } else {
            Ok(
                (
                    TokenView {
                        kind: TokenKind::String,
                        value: chars.subrange(i + 1, end),
                        location: place(src, chars, i),
                        bits: 0,
                    },
                    end + 1,
                ),
            )
        }
    } else if t.has(i, CharClass::Letter) {
        let end = run_end(t, i + 1, CharClass::LetterOrDigit);
        Ok((word(src, chars, TokenKind::Id, i, end), end))
    } else if t.has(i, CharClass::Single) {
        Ok((word(src, chars, TokenKind::Symbol, i, i + 1), i + 1))
    } else if t.has(i, CharClass::Merge) {
        let end = run_end(t, i + 1, CharClass::Merge);
        Ok((word(src, chars, TokenKind::Symbol, i, end), end))
    } else if t.has(i, CharClass::Digit) {
        let end = run_end(t, i + 1, CharClass::DigitOrDot);
        Ok((word(src, chars, TokenKind::Number, i, end), end))
    } else {
        Err(error_at(ErrorKind::UnexpectedCharacter, place(src, chars, i)))
    }
}

/// The tokens of the text from `i` on: white space is skipped between them,
/// and the last one marks the end of the source.
pub open spec fn lex_spec(src: Seq<char>, t: Text, i: int) -> Result<Seq<TokenView>, ErrorView>
    decreases t.chars.len() - i,
{
    let start = run_end(t, i, CharClass::Space);
    match token_spec(src, t, start) {
        Err(error) => Err(error),
        Ok((token, next)) => if token.kind == TokenKind::EOF {
            Ok(seq![token])
        } else if next <= i || next > t.chars.len() {
            Err(error_at(ErrorKind::UnexpectedCharacter, token.location))
        } else {
            match lex_spec(src, t, next) {
                Err(error) => Err(error),
                Ok(rest) => Ok(seq![token] + rest),
            }
        },
    }
}

/// The tokens `front`, and behind them what `rest` gives.
pub open spec fn behind_tokens(front: Seq<TokenView>, rest: Result<Seq<TokenView>, ErrorView>) -> Result<
    Seq<TokenView>,
    ErrorView,
> {
    match rest {
        Ok(more) => Ok(front + more),
        Err(error) => Err(error),
    }
}

/// The characters of a text.
pub fn characters(text: &str) -> (r: Vec<char>)
    ensures
        r@ == text@,
{
    let count = text.unicode_len();
    let mut out: Vec<char> = Vec::new();
    let mut i: usize = 0;
    while i < count
        invariant
            i <= count,
            count == text@.len(),
            out@ == text@.take(i as int),
        decreases count - i,
    {
        out.push(text.get_char(i));
        assert(text@.take(i as int).push(text@[i as int]) =~= text@.take(i + 1));
        i += 1;
    }
    assert(text@.take(count as int) =~= text@);
    out
}

/// Where the lexer stands: at which character, in which column and line.
#[derive(Debug, Clone, Copy)]
pub struct CharReader {
    pub index: usize,
    pub x: usize,
    pub y: usize,
}

impl CharReader {
    /// Column and line are those of the character at which the reader stands.
    pub open spec fn at(&self, chars: Seq<char>) -> bool {
        &&& self.index <= chars.len()
        &&& self.x == column_of(chars, self.index as int)
        &&& self.y == line_of(chars, self.index as int)
    }

    /// The reader at the start of a text.
    pub fn new() -> (r: CharReader)
        ensures
            r.index == 0,
            r.x == 1,
            r.y == 1,
    {
        CharReader { index: 0, x: 1, y: 1 }
    }

    /// The place at which the reader stands.
    pub fn point(&self) -> (r: (usize, usize))
        ensures
            r == (self.x, self.y),
    {
        (self.x, self.y)
    }

    /// Goes on by one character.
    pub fn advance(&mut self, chars: &Vec<char>)
        requires
            old(self).at(chars@),
            old(self).index < chars@.len(),
            chars@.len() < usize::MAX,
        ensures
            final(self).at(chars@),
            final(self).index == old(self).index + 1,
    {
        proof {
            lemma_place_bounds(chars@, self.index as int);
            lemma_place_bounds(chars@, self.index + 1);
        }
        if chars[self.index] == '\n' {
            self.x = 1;
            self.y = self.y + 1;
        } else {
            self.x = self.x + 1;
        }
        self.index = self.index + 1;
    }

    /// Goes on to the end of the run of characters of `class`.
    pub fn skip_run(&mut self, chars: &Vec<char>, facts: &Vec<CharFacts>, class: CharClass)
        requires
            old(self).at(chars@),
            chars@.len() < usize::MAX,
            facts@.len() == chars@.len(),
        ensures
            final(self).at(chars@),
            final(self).index == run_end(
                Text { chars: chars@, facts: facts@ },
                old(self).index as int,
                class,
            ),
            final(self).index >= old(self).index,
    {
        let ghost t = Text { chars: chars@, facts: facts@ };
        while self.index < chars.len() && char_in(chars[self.index], facts[self.index], class)
            invariant
                self.at(chars@),
                chars@.len() < usize::MAX,
                facts@.len() == chars@.len(),
                t == (Text { chars: chars@, facts: facts@ }),
                self.index >= old(self).index,
                run_end(t, self.index as int, class) == run_end(t, old(self).index as int, class),
            decreases chars@.len() - self.index,
        {
            self.advance(chars);
        }
    }
}

/// The lexer of one source text.
pub struct Lexer {
    pub src: String,
    pub text: String,
    pub chars: Vec<char>,
    pub facts: Vec<CharFacts>,
    pub reader: CharReader,
}

impl View for Lexer {
    type V = Text;

    open spec fn view(&self) -> Text {
        Text { chars: self.chars@, facts: self.facts@ }
    }
}

impl Lexer {
    /// The lexer is inside its text.
    pub open spec fn wf(&self) -> bool {
        &&& self.reader.at(self.chars@)
        &&& self.chars@.len() < usize::MAX
        &&& self.text@ == self.chars@
        &&& self.facts@.len() == self.chars@.len()
    }

    /// The lexer at the start of `text`, the contents of the source `src`.
    pub fn new(src: &str, text: &str) -> (r: Lexer)
        requires
            text@.len() < usize::MAX,
        ensures
            r.wf(),
            r.src@ == src@,
            r@ == Text::of(text@),
            r.reader.index == 0,
    {
        let chars = characters(text);
        let facts = classify_all(&chars);
        Lexer {
            src: String::from_str(src),
            text: String::from_str(text),
            chars,
            facts,
            reader: CharReader::new(),
        }
    }

    /// The lexer at the start of `text`, of whose characters `facts` says
    /// what they are.
    pub fn with_facts(src: &str, text: &str, facts: Vec<CharFacts>) -> (r: Lexer)
        requires
            text@.len() < usize::MAX,
            facts@.len() == text@.len(),
        ensures
            r.wf(),
            r.src@ == src@,
            r@ == (Text { chars: text@, facts: facts@ }),
            r.reader.index == 0,
    {
        Lexer {
            src: String::from_str(src),
            text: String::from_str(text),
            chars: characters(text),
            facts,
            reader: CharReader::new(),
        }
    }

    /// The place at which the lexer stands.
    pub fn point(&self) -> (r: Location)
        requires
            self.wf(),
        ensures
            r@ == place(self.src@, self.chars@, self.reader.index as int),
    {
        let (x, y) = self.reader.point();
        Location { x, y, src: self.src.clone() }
    }

    /// The text from `from` up to `to`.
    fn slice(&self, from: usize, to: usize) -> (r: String)
        requires
            self.wf(),
            from <= to <= self.chars@.len(),
        ensures
            r@ == self.chars@.subrange(from as int, to as int),
    {
        String::from_str(self.text.as_str().substring_char(from, to))
    }

    /// The token of kind `kind` that starts where the lexer stands and goes
    /// on through the characters of `class`.
    pub fn lex_word(&mut self, kind: TokenKind, class: CharClass) -> (r: Token)
        requires
            old(self).wf(),
            old(self).reader.index < old(self).chars@.len(),
        ensures
            final(self).wf(),
            final(self).src == old(self).src,
            final(self)@ == old(self)@,
            final(self).reader.index == run_end(old(self)@, old(self).reader.index + 1, class),
            final(self).reader.index > old(self).reader.index,
            r@ == word(
                old(self).src@,
                old(self).chars@,
                kind,
                old(self).reader.index as int,
                final(self).reader.index as int,
            ),
    {
        let location = self.point();
        let from = self.reader.index;
        self.reader.advance(&self.chars);
        self.reader.skip_run(&self.chars, &self.facts, class);
        let value = self.slice(from, self.reader.index);
        Token { kind, value, location, bits: 0 }
    }

    /// The next token: white space is skipped first.
    pub fn lex(&mut self) -> (r: Result<Token, LangError>)
        requires
            old(self).wf(),
        ensures
            final(self).wf(),
            final(self).src == old(self).src,
            final(self)@ == old(self)@,
            match r {
                Ok(token) => token_spec(
                    old(self).src@,
                    old(self)@,
                    run_end(old(self)@, old(self).reader.index as int, CharClass::Space),
                ) == Ok::<_, ErrorView>((token@, final(self).reader.index as int))
                    && final(self).reader.index >= old(self).reader.index && (token.kind
                    != TokenKind::EOF ==> final(self).reader.index > old(self).reader.index),
                Err(e) => token_spec(
                    old(self).src@,
                    old(self)@,
                    run_end(old(self)@, old(self).reader.index as int, CharClass::Space),
                ) == Err::<(TokenView, int), _>(e@),
            },
    {
        self.reader.skip_run(&self.chars, &self.facts, CharClass::Space);
        let start = self.reader.index;
        if start >= self.chars.len() {
            let location = self.point();
            return Ok(Token { kind: TokenKind::EOF, value: String::from_str("<EOF>"), location, bits: 0 });
        }
        let first = self.chars[start];
        let facts = self.facts[start];
        if first == '"' {
            let location = self.point();
            self.reader.advance(&self.chars);
            self.reader.skip_run(&self.chars, &self.facts, CharClass::StringBody);
            let end = self.reader.index;
            if end >= self.chars.len() {
                return Err(LangError::at(ErrorKind::UnterminatedString, &location));
            }
            let value = self.slice(start + 1, end);
            self.reader.advance(&self.chars);
            Ok(Token { kind: TokenKind::String, value, location, bits: 0 })
        } else if char_in(first, facts, CharClass::Letter) {
            Ok(self.lex_word(TokenKind::Id, CharClass::LetterOrDigit))
        } else if char_in(first, facts, CharClass::Single) {
            let location = self.point();
            self.reader.advance(&self.chars);
            let value = self.slice(start, start + 1);
            Ok(Token { kind: TokenKind::Symbol, value, location, bits: 0 })
        } else if char_in(first, facts, CharClass::Merge) {
            Ok(self.lex_word(TokenKind::Symbol, CharClass::Merge))
        } else if char_in(first, facts, CharClass::Digit) {
            Ok(self.lex_word(TokenKind::Number, CharClass::DigitOrDot))
        } else {
            Err(LangError::at(ErrorKind::UnexpectedCharacter, &self.point()))
        }
    }

    /// All tokens from where the lexer stands to the end of the source.
    pub fn run(self) -> (r: Result<Vec<Token>, LangError>)
        requires
            self.wf(),
        ensures
            match r {
                Ok(tokens) => lex_spec(self.src@, self@, self.reader.index as int) == Ok::<
                    _,
                    ErrorView,
                >(views(tokens@)),
                Err(e) => lex_spec(self.src@, self@, self.reader.index as int) == Err::<
                    Seq<TokenView>,
                    _,
                >(e@),
            },
    {
        let mut source = self;
        let mut tokens: Vec<Token> = Vec::new();
        let ghost src = self.src@;
        let ghost t = self@;
        let ghost whole = lex_spec(src, t, self.reader.index as int);
        proof {
            assert(views(tokens@) =~= Seq::<TokenView>::empty());
            match whole {
                Ok(all) => {
                    assert(Seq::<TokenView>::empty() + all =~= all);
                },
                Err(_) => {},
            }
        }
        loop
            invariant
                source.wf(),
                source.src@ == src,
                source@ == t,
                whole == lex_spec(self.src@, self@, self.reader.index as int),
                whole == behind_tokens(views(tokens@), lex_spec(src, t, source.reader.index as int)),
            decreases t.chars.len() - source.reader.index,
        {
            let ghost before = tokens@;
            let ghost at = source.reader.index as int;
            proof {
                lemma_run_end(t, at, CharClass::Space);
            }
            let token = match source.lex() {
                Ok(token) => token,
                Err(e) => {
                    return Err(e);
                },
            };
            let is_done = token.kind == TokenKind::EOF;
            tokens.push(token);
            proof {
                lemma_views_push(before, token);
                let rest = lex_spec(src, t, source.reader.index as int);
                match rest {
                    Ok(more) => {
                        assert(views(before).push(token@) + more =~= views(before) + (seq![token@]
                            + more));
                    },
                    Err(_) => {},
                }
                assert(views(before).push(token@) =~= views(before) + seq![token@]);
            }
            if is_done {
                return Ok(tokens);
            }
        }
    }
}

/// Cuts the text of the source `src` into tokens, given what the standard
/// library says of each of its characters. The last token marks the end of
/// the source.
pub fn lex_with(src: &str, text: &str, facts: Vec<CharFacts>) -> (r: Result<Vec<Token>, LangError>)
    requires
        text@.len() < usize::MAX,
        facts@.len() == text@.len(),
    ensures
        match r {
            Ok(tokens) => lex_spec(src@, Text { chars: text@, facts: facts@ }, 0) == Ok::<
                _,
                ErrorView,
            >(views(tokens@)),
            Err(e) => lex_spec(src@, Text { chars: text@, facts: facts@ }, 0) == Err::<
                Seq<TokenView>,
                _,
            >(e@),
        },
{
    Lexer::with_facts(src, text, facts).run()
}

/// Cuts the text of the source `src` into tokens. The last token marks the
/// end of the source.
pub fn lex(src: &str, text: &str) -> (r: Result<Vec<Token>, LangError>)
    requires
        text@.len() < usize::MAX,
    ensures
        match r {
            Ok(tokens) => lex_spec(src@, Text::of(text@), 0) == Ok::<_, ErrorView>(views(tokens@)),
            Err(e) => lex_spec(src@, Text::of(text@), 0) == Err::<Seq<TokenView>, _>(e@),
        },
{
    Lexer::new(src, text).run()
}

} // verus!
